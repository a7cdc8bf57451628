use vstd::prelude::*;

verus! {

/// One of the two sides of a points game.
#[derive(Clone, Copy, Debug, PartialEq, Eq, Structural)]
pub enum Player {
    Red,
    Black,
}

impl Player {
    /// `true` stands for black, `false` for red.
    pub open spec fn spec_from_bool(b: bool) -> Player {
        if b {
            Player::Black
        } else {
            Player::Red
        }
    }

    /// The player that a boolean stands for: `true` is black, `false` is red.
    pub fn from_bool(b: bool) -> (p: Player)
        ensures
            p == Self::spec_from_bool(b),
    {
        if b {
            Player::Black
        } else {
            Player::Red
        }
    }
}

} // verus!
