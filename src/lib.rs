//! Playing cards, a deck to deal them from, and two text renderings of a
//! row of cards: a compact one (four rows per card) and a large one with
//! pips and face art (twelve rows per card).

pub mod card;
pub mod deck;
pub mod compact;
pub mod display;
pub mod laws;
pub mod large;
pub mod text;

pub use card::{Card, Rank, Suit};
pub use deck::Deck;
