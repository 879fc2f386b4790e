use vstd::prelude::*;
use rand::seq::SliceRandom;
use crate::card::{Card, Rank, Suit};

verus! {

/// Suits in the order a fresh deck holds them.
pub open spec fn suit_order() -> Seq<Suit> {
    seq![Suit::Clubs, Suit::Diamonds, Suit::Hearts, Suit::Spades]
}

/// Standard ranks in the order a fresh deck holds them within a suit.
pub open spec fn rank_order() -> Seq<Rank> {
    seq![
        Rank::Ace,
        Rank::Two,
        Rank::Three,
        Rank::Four,
        Rank::Five,
        Rank::Six,
        Rank::Seven,
        Rank::Eight,
        Rank::Nine,
        Rank::Ten,
        Rank::Jack,
        Rank::Queen,
        Rank::King,
    ]
}

/// The fifty-two standard cards, suit by suit, each suit from ace to king.
pub open spec fn standard_cards() -> Seq<Card> {
    Seq::new(52, |i: int| Card { rank: rank_order()[i % 13], suit: Some(suit_order()[i / 13]) })
}

/// A fresh deck in order: the standard cards, then two jokers when they are enabled.
pub open spec fn full_deck(jokers: bool) -> Seq<Card> {
    if jokers {
        standard_cards() + seq![
            Card { rank: Rank::Joker, suit: None },
            Card { rank: Rank::Joker, suit: None },
        ]
    } else {
        standard_cards()
    }
}

/// Relies on rand's `SliceRandom::shuffle` with the thread-local generator:
/// it only swaps elements, so the result is a permutation of the input.
#[verifier::external_body]
fn shuffle_cards(cards: &mut Vec<Card>)
    ensures
        final(cards)@.to_multiset() == old(cards)@.to_multiset(),
{
    let mut rng = rand::rng();
    cards.shuffle(&mut rng);
}

/// A deck of cards, dealt from the end; jokers are an option fixed at creation.
#[derive(Debug, Clone)]
pub struct Deck {
    cards: Vec<Card>,
    jokers: bool,
}

impl View for Deck {
    type V = Seq<Card>;

    closed spec fn view(&self) -> Seq<Card> {
        self.cards@
    }
}

impl Deck {
    /// Whether this deck was made with jokers; a reset keeps the choice.
    pub closed spec fn has_jokers(&self) -> bool {
        self.jokers
    }

    /// A full deck in order, with the two jokers.
    pub fn new() -> (d: Deck)
        ensures
            d@ == full_deck(true),
            d.has_jokers(),
            forall|i: int| 0 <= i < d@.len() ==> (#[trigger] d@[i]).well_formed(),
    {
        Deck::with_jokers(true)
    }

    /// A full deck in order, with or without the two jokers.
    pub fn with_jokers(jokers: bool) -> (d: Deck)
        ensures
            d@ == full_deck(jokers),
            d.has_jokers() == jokers,
            forall|i: int| 0 <= i < d@.len() ==> (#[trigger] d@[i]).well_formed(),
    {
        let suits: [Suit; 4] = [Suit::Clubs, Suit::Diamonds, Suit::Hearts, Suit::Spades];
        let ranks: [Rank; 13] = [
            Rank::Ace,
            Rank::Two,
            Rank::Three,
            Rank::Four,
            Rank::Five,
            Rank::Six,
            Rank::Seven,
            Rank::Eight,
            Rank::Nine,
            Rank::Ten,
            Rank::Jack,
            Rank::Queen,
            Rank::King,
        ];
        assert(suits@ == suit_order());
        assert(ranks@ == rank_order());
        let mut cards: Vec<Card> = Vec::with_capacity(54);
        let mut i: usize = 0;
        while i < 52
            invariant
                i <= 52,
                suits@ == suit_order(),
                ranks@ == rank_order(),
                cards@ == standard_cards().take(i as int),
            decreases 52 - i,
        {
            let card = Card::new(ranks[i % 13], Some(suits[i / 13]));
            cards.push(card);
            assert(cards@ =~= standard_cards().take(i + 1));
            i = i + 1;
        }
        assert(cards@ =~= standard_cards());
        assert forall|i: int| 0 <= i < 52 implies (#[trigger] standard_cards()[i]).well_formed() by {
            assert(0 <= i % 13 < 13);
        }
        if jokers {
            cards.push(Card::new(Rank::Joker, None));
            cards.push(Card::new(Rank::Joker, None));
            assert(cards@ =~= full_deck(true));
        }
        Deck { cards, jokers }
    }

    /// A full deck, with the two jokers, in random order.
    pub fn new_shuffled() -> (d: Deck)
        ensures
            d@.to_multiset() == full_deck(true).to_multiset(),
            d.has_jokers(),
    {
        let mut deck = Deck::new();
        deck.shuffle();
        deck
    }

    /// Puts the cards left in the deck in random order.
    pub fn shuffle(&mut self)
        ensures
            final(self)@.to_multiset() == old(self)@.to_multiset(),
            final(self).has_jokers() == old(self).has_jokers(),
    {
        shuffle_cards(&mut self.cards);
    }

    /// Takes the last card of the deck, if any is left.
    pub fn draw(&mut self) -> (c: Option<Card>)
        ensures
            old(self)@.len() == 0 ==> c is None && final(self)@ == old(self)@,
            old(self)@.len() > 0 ==> c == Some(old(self)@.last())
                && final(self)@ == old(self)@.drop_last(),
            final(self).has_jokers() == old(self).has_jokers(),
    {
        self.cards.pop()
    }

    pub fn len(&self) -> (n: usize)
        ensures
            n == self@.len(),
    {
        self.cards.len()
    }

    pub fn is_empty(&self) -> (b: bool)
        ensures
            b == (self@.len() == 0),
    {
        self.cards.len() == 0
    }

    /// The cards left, in the order they sit in the deck (the last is dealt first).
    pub fn cards(&self) -> (s: &[Card])
        ensures
            s@ == self@,
    {
        self.cards.as_slice()
    }

    /// Puts every card back, in the order of a fresh deck.
    pub fn reset(&mut self)
        ensures
            final(self)@ == full_deck(old(self).has_jokers()),
            final(self).has_jokers() == old(self).has_jokers(),
    {
        *self = Deck::with_jokers(self.jokers);
    }
}

} // verus!
