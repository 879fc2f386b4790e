use vstd::prelude::*;

verus! {

/// The four suits of a standard deck.
#[derive(Debug, Clone, Copy, PartialEq, Eq, Structural, Hash)]
pub enum Suit {
    Clubs,
    Diamonds,
    Hearts,
    Spades,
}

/// The thirteen standard ranks, and the joker, which has no suit.
#[derive(Debug, Clone, Copy, PartialEq, Eq, Structural, Hash, PartialOrd, Ord)]
pub enum Rank {
    Ace,
    Two,
    Three,
    Four,
    Five,
    Six,
    Seven,
    Eight,
    Nine,
    Ten,
    Jack,
    Queen,
    King,
    Joker,
}

/// A card: a rank and, for every rank but the joker, a suit.
#[derive(Debug, Clone, Copy, PartialEq, Eq, Structural, Hash)]
pub struct Card {
    pub rank: Rank,
    pub suit: Option<Suit>,
}

impl Card {
    /// A card is well formed when it has a suit exactly when it is not a joker.
    pub open spec fn well_formed(self) -> bool {
        (self.rank == Rank::Joker) <==> self.suit.is_none()
    }

    pub fn new(rank: Rank, suit: Option<Suit>) -> (r: Card)
        ensures
            r == (Card { rank, suit }),
    {
        Card { rank, suit }
    }

    pub fn is_joker(&self) -> (r: bool)
        ensures
            r == (self.rank == Rank::Joker),
    {
        matches!(self.rank, Rank::Joker)
    }
}

/// The numeric value of a number rank (two to ten), used to choose its pip layout.
pub open spec fn pip_value(r: Rank) -> Option<nat> {
    match r {
        Rank::Two => Some(2),
        Rank::Three => Some(3),
        Rank::Four => Some(4),
        Rank::Five => Some(5),
        Rank::Six => Some(6),
        Rank::Seven => Some(7),
        Rank::Eight => Some(8),
        Rank::Nine => Some(9),
        Rank::Ten => Some(10),
        _ => None,
    }
}

} // verus!
