//! Text forms of suits, ranks and cards, and the two renderings of a row of cards.

use vstd::prelude::*;
use crate::card::{Card, Rank, Suit};

pub use crate::compact::{render_compact, SmallCardsDisplay};
pub use crate::large::{render_large, LargeCardsDisplay};

verus! {

/// The glyph of a suit.
pub open spec fn suit_glyph(s: Suit) -> Seq<char> {
    match s {
        Suit::Clubs => "♣"@,
        Suit::Diamonds => "♦"@,
        Suit::Hearts => "♥"@,
        Suit::Spades => "♠"@,
    }
}

/// The glyph that stands for a joker.
pub open spec fn joker_glyph() -> Seq<char> {
    "🃏"@
}

/// The label of a rank: one character, but two for ten.
pub open spec fn rank_label(r: Rank) -> Seq<char> {
    match r {
        Rank::Ace => "A"@,
        Rank::Two => "2"@,
        Rank::Three => "3"@,
        Rank::Four => "4"@,
        Rank::Five => "5"@,
        Rank::Six => "6"@,
        Rank::Seven => "7"@,
        Rank::Eight => "8"@,
        Rank::Nine => "9"@,
        Rank::Ten => "10"@,
        Rank::Jack => "J"@,
        Rank::Queen => "Q"@,
        Rank::King => "K"@,
        Rank::Joker => joker_glyph(),
    }
}

/// The label of a card: the joker glyph for a joker, else its rank label and
/// suit glyph; a card that lacks its suit shows as a question mark.
pub open spec fn card_label(c: Card) -> Seq<char> {
    if c.rank == Rank::Joker {
        joker_glyph()
    } else {
        match c.suit {
            Some(s) => rank_label(c.rank) + suit_glyph(s),
            None => "?"@,
        }
    }
}

/// The suit glyph of a card, or one blank where it has no suit.
pub open spec fn suit_mark(suit: Option<Suit>) -> Seq<char> {
    match suit {
        Some(s) => suit_glyph(s),
        None => " "@,
    }
}

/// Every suit glyph is one character, and the four are distinct.
pub proof fn lemma_suit_glyphs()
    ensures
        forall|s: Suit| #[trigger] suit_glyph(s).len() == 1,
        forall|s: Suit, t: Suit| s != t ==> #[trigger] suit_glyph(s) != #[trigger] suit_glyph(t),
{
    reveal_strlit("♣");
    reveal_strlit("♦");
    reveal_strlit("♥");
    reveal_strlit("♠");
    assert(forall|s: Suit, t: Suit| s != t ==> suit_glyph(s)[0] != suit_glyph(t)[0]);
}

/// Rank labels are one character wide, ten's two; no label character is a
/// blank, a newline or a suit glyph.
pub proof fn lemma_rank_labels()
    ensures
        forall|r: Rank| #[trigger] rank_label(r).len() == if r == Rank::Ten { 2nat } else { 1nat },
        forall|r: Rank, k: int|
            0 <= k < rank_label(r).len() ==> #[trigger] rank_label(r)[k] != '\n'
                && rank_label(r)[k] != ' ',
        forall|r: Rank, k: int, s: Suit|
            0 <= k < rank_label(r).len() ==> #[trigger] rank_label(r)[k] != #[trigger] suit_glyph(s)[0],
{
    reveal_strlit("A");
    reveal_strlit("2");
    reveal_strlit("3");
    reveal_strlit("4");
    reveal_strlit("5");
    reveal_strlit("6");
    reveal_strlit("7");
    reveal_strlit("8");
    reveal_strlit("9");
    reveal_strlit("10");
    reveal_strlit("J");
    reveal_strlit("Q");
    reveal_strlit("K");
    reveal_strlit("🃏");
    lemma_suit_glyphs();
    reveal_strlit("♣");
    reveal_strlit("♦");
    reveal_strlit("♥");
    reveal_strlit("♠");
}

/// A textual form of a value.
pub trait UnicodeDisplay {
    fn to_unicode(&self) -> String;
}

impl UnicodeDisplay for Suit {
    fn to_unicode(&self) -> (r: String)
        ensures
            r@ == suit_glyph(*self),
    {
        match self {
            Suit::Clubs => String::from_str("♣"),
            Suit::Diamonds => String::from_str("♦"),
            Suit::Hearts => String::from_str("♥"),
            Suit::Spades => String::from_str("♠"),
        }
    }
}

impl UnicodeDisplay for Rank {
    fn to_unicode(&self) -> (r: String)
        ensures
            r@ == rank_label(*self),
    {
        match self {
            Rank::Ace => String::from_str("A"),
            Rank::Two => String::from_str("2"),
            Rank::Three => String::from_str("3"),
            Rank::Four => String::from_str("4"),
            Rank::Five => String::from_str("5"),
            Rank::Six => String::from_str("6"),
            Rank::Seven => String::from_str("7"),
            Rank::Eight => String::from_str("8"),
            Rank::Nine => String::from_str("9"),
            Rank::Ten => String::from_str("10"),
            Rank::Jack => String::from_str("J"),
            Rank::Queen => String::from_str("Q"),
            Rank::King => String::from_str("K"),
            Rank::Joker => String::from_str("🃏"),
        }
    }
}

impl UnicodeDisplay for Card {
    fn to_unicode(&self) -> (r: String)
        ensures
            r@ == card_label(*self),
    {
        if self.is_joker() {
            return String::from_str("🃏");
        }
        match self.suit {
            Some(suit) => {
                let mut label = self.rank.to_unicode();
                let glyph = suit.to_unicode();
                label.append(glyph.as_str());
                label
            },
            None => String::from_str("?"),
        }
    }
}

} // verus!
