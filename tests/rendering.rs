use cards::display::{render_compact, render_large, LargeCardsDisplay, SmallCardsDisplay};
use cards::{Card, Rank, Suit};

fn card(rank: Rank, suit: Suit) -> Card {
    Card::new(rank, Some(suit))
}

#[test]
fn compact_rows_are_five_wide_per_card() {
    let cards = vec![
        card(Rank::Ten, Suit::Hearts),
        Card::new(Rank::Joker, None),
        card(Rank::Seven, Suit::Clubs),
    ];
    let text = render_compact(&cards);
    let lines: Vec<&str> = text.split('\n').collect();
    assert_eq!(lines.len(), 4);
    for line in lines {
        assert_eq!(line.chars().count(), 15);
    }
}

#[test]
fn large_rows_are_thirteen_wide_per_card() {
    let cards = vec![
        card(Rank::Ten, Suit::Hearts),
        Card::new(Rank::Joker, None),
        card(Rank::Queen, Suit::Clubs),
        card(Rank::Nine, Suit::Diamonds),
    ];
    let text = render_large(&cards);
    let lines: Vec<&str> = text.split('\n').collect();
    assert_eq!(lines.len(), 12);
    for line in lines {
        assert_eq!(line.chars().count(), 52);
    }
}

#[test]
fn empty_rows_of_cards_render_no_cards() {
    assert_eq!(render_compact(&[]), "No cards");
    assert_eq!(render_large(&[]), "No cards");
}

#[test]
fn compact_ace_of_spades() {
    assert_eq!(render_compact(&[card(Rank::Ace, Suit::Spades)]), "┌───┐\n│ A │\n│ ♠ │\n└───┘");
}

#[test]
fn compact_ten_of_clubs() {
    assert_eq!(render_compact(&[card(Rank::Ten, Suit::Clubs)]), "┌───┐\n│10 │\n│ ♣ │\n└───┘");
}

#[test]
fn compact_cards_sit_side_by_side() {
    let text = render_compact(&[card(Rank::Ace, Suit::Spades), card(Rank::King, Suit::Hearts)]);
    let lines: Vec<&str> = text.split('\n').collect();
    assert_eq!(lines[0], "┌───┐┌───┐");
    assert_eq!(lines[1], "│ A ││ K │");
    assert_eq!(lines[2], "│ ♠ ││ ♥ │");
    assert_eq!(lines[3], "└───┘└───┘");
}

#[test]
fn large_rows_are_the_cards_rows_side_by_side() {
    let a = card(Rank::Three, Suit::Hearts);
    let b = card(Rank::Jack, Suit::Clubs);
    let both = render_large(&[a, b]);
    let left = render_large(&[a]);
    let right = render_large(&[b]);
    let joined: Vec<String> = left
        .split('\n')
        .zip(right.split('\n'))
        .map(|(l, r)| format!("{l}{r}"))
        .collect();
    assert_eq!(both, joined.join("\n"));
}

#[test]
fn rendering_twice_gives_the_same_text() {
    let cards = vec![card(Rank::Eight, Suit::Diamonds), Card::new(Rank::Joker, None)];
    assert_eq!(cards.to_small_cards(), cards.to_small_cards());
    assert_eq!(cards.to_large_cards(), cards.to_large_cards());
    assert_eq!(render_large(&cards), cards.to_large_cards());
}

#[test]
fn large_ten_of_hearts() {
    let expected = [
        "╭───────────╮",
        "│10         │",
        "│♥          │",
        "│           │",
        "│  ♥     ♥  │",
        "│    ♥ ♥    │",
        "│  ♥     ♥  │",
        "│    ♥ ♥    │",
        "│  ♥     ♥  │",
        "│          ♥│",
        "│         10│",
        "╰───────────╯",
    ]
    .join("\n");
    assert_eq!(render_large(&[card(Rank::Ten, Suit::Hearts)]), expected);
}

#[test]
fn large_seven_and_nine_layouts() {
    let seven = render_large(&[card(Rank::Seven, Suit::Spades)]);
    let lines: Vec<&str> = seven.split('\n').collect();
    assert_eq!(lines[6], "│  ♠  ♠  ♠  │");
    let nine = render_large(&[card(Rank::Nine, Suit::Clubs)]);
    let lines: Vec<&str> = nine.split('\n').collect();
    assert_eq!(lines[4], "│    ♣ ♣    │");
    assert_eq!(lines[6], "│     ♣     │");
    assert_eq!(lines[8], "│    ♣ ♣    │");
}

#[test]
fn large_joker_layout() {
    let text = render_large(&[Card::new(Rank::Joker, None)]);
    let lines: Vec<&str> = text.split('\n').collect();
    assert_eq!(lines[1], "│JOKER      │");
    assert_eq!(lines[6], "│  | o o |  │");
    assert_eq!(lines[8], "│   \\_-_/   │");
    assert_eq!(lines[10], "│      JOKER│");
    assert_eq!(text.matches("JOKER").count(), 2);
}

#[test]
fn large_queen_face() {
    let text = render_large(&[card(Rank::Queen, Suit::Diamonds)]);
    let lines: Vec<&str> = text.split('\n').collect();
    assert_eq!(lines[5], "│  /     \\  │");
    assert_eq!(lines[7], "│  \\_____/  │");
    assert_eq!(lines[8], "│    /_\\    │");
    assert_eq!(text.matches('♦').count(), 2);
}

#[test]
fn cards_without_a_suit_render_blank_suit_marks() {
    let compact = render_compact(&[Card::new(Rank::Five, None)]);
    assert_eq!(compact, "┌───┐\n│ 5 │\n│   │\n└───┘");
    let large = render_large(&[Card::new(Rank::Two, None)]);
    let lines: Vec<&str> = large.split('\n').collect();
    assert_eq!(lines[2], "│           │");
    assert_eq!(lines[4], "│           │");
    assert_eq!(lines[9], "│           │");
}
