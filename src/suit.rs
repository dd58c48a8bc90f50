use vstd::prelude::*;

verus! {

/// The mark in a cell, or the player on turn. `Empty` stands for an empty
/// cell, for "nobody is on turn" and, in search results, for a draw.
#[derive(Debug, Clone, Copy, PartialEq, Eq, Structural)]
pub enum Suit {
    Empty,
    Cross,
    Circle,
}

impl Suit {
    /// The other player; `Empty` stays `Empty`.
    pub open spec fn opposite(self) -> Suit {
        match self {
            Suit::Empty => Suit::Empty,
            Suit::Cross => Suit::Circle,
            Suit::Circle => Suit::Cross,
        }
    }

    pub fn is_none(&self) -> (r: bool)
        ensures
            r == (*self == Suit::Empty),
    {
        *self == Suit::Empty
    }

    /// The other player; `Empty` stays `Empty`.
    pub fn oposite(&self) -> (r: Suit)
        ensures
            r == self.opposite(),
    {
        match self {
            Suit::Empty => Suit::Empty,
            Suit::Cross => Suit::Circle,
            Suit::Circle => Suit::Cross,
        }
    }
}

} // verus!
