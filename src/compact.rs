//! The compact rendering: four rows per card, each cell five characters wide.

use vstd::prelude::*;
use vstd::string::*;
use crate::card::{Card, Rank};
use crate::display::{
    UnicodeDisplay, joker_glyph, lemma_rank_labels, lemma_suit_glyphs, rank_label, suit_glyph,
};
use crate::text::{block_views, compose_blocks, join_lines, side_by_side};

verus! {

/// The text given for an empty row of cards.
pub open spec fn no_cards() -> Seq<char> {
    "No cards"@
}

/// Rows in a compact rendering.
pub const COMPACT_HEIGHT: usize = 4;

/// The rank cell: a one-character label centred, the two-character label
/// followed by one blank, the joker glyph centred.
pub open spec fn compact_rank_cell(c: Card) -> Seq<char> {
    if c.rank == Rank::Joker {
        "│ "@ + joker_glyph() + " │"@
    } else if rank_label(c.rank).len() == 1 {
        "│ "@ + rank_label(c.rank) + " │"@
    } else {
        "│"@ + rank_label(c.rank) + " │"@
    }
}

/// The suit cell: the suit glyph centred, or blank for a card without a suit.
pub open spec fn compact_suit_cell(c: Card) -> Seq<char> {
    match c.suit {
        Some(s) if c.rank != Rank::Joker => "│ "@ + suit_glyph(s) + " │"@,
        _ => "│   │"@,
    }
}

/// The four rows of one card: top border, rank, suit, bottom border.
pub open spec fn compact_cell(c: Card) -> Seq<Seq<char>> {
    seq!["┌───┐"@, compact_rank_cell(c), compact_suit_cell(c), "└───┘"@]
}

/// The four rows of a row of cards: the cells laid side by side.
pub open spec fn compact_rows(cards: Seq<Card>) -> Seq<Seq<char>> {
    side_by_side(cards.map_values(|c: Card| compact_cell(c)), 4)
}

/// The compact rendering of a row of cards.
pub open spec fn compact_text(cards: Seq<Card>) -> Seq<char> {
    if cards.len() == 0 {
        no_cards()
    } else {
        join_lines(compact_rows(cards))
    }
}

/// Every row of a compact cell is five characters, none a newline.
pub proof fn lemma_compact_cell_shape(c: Card)
    ensures
        compact_cell(c).len() == 4,
        forall|i: int, k: int|
            0 <= i < 4 && 0 <= k < 5 ==> #[trigger] compact_cell(c)[i][k] != '\n',
        forall|i: int| 0 <= i < 4 ==> #[trigger] compact_cell(c)[i].len() == 5,
{
    reveal_strlit("┌───┐");
    reveal_strlit("└───┘");
    reveal_strlit("│ ");
    reveal_strlit(" │");
    reveal_strlit("│");
    reveal_strlit("│   │");
    reveal_strlit("🃏");
    lemma_rank_labels();
    lemma_suit_glyphs();
    reveal_strlit("♣");
    reveal_strlit("♦");
    reveal_strlit("♥");
    reveal_strlit("♠");
    let rows = compact_cell(c);
    assert forall|i: int, k: int| 0 <= i < 4 && 0 <= k < 5 implies #[trigger] rows[i][k] != '\n' by {
        if i == 1 && c.rank != Rank::Joker {
            let label = rank_label(c.rank);
            if label.len() == 1 {
                if 2 <= k < 3 {
                    assert(rows[i][k] == label[k - 2]);
                }
            } else {
                if 1 <= k < 3 {
                    assert(rows[i][k] == label[k - 1]);
                }
            }
        }
    }
}

/// The four rows of one card, as strings.
fn compact_card_lines(card: &Card) -> (lines: Vec<String>)
    ensures
        lines@.len() == COMPACT_HEIGHT,
        lines@.map_values(|s: String| s@) == compact_cell(*card),
{
    let top = String::from_str("┌───┐");
    let rank_cell = if card.is_joker() {
        let mut cell = String::from_str("│ ");
        cell.append("🃏");
        cell.append(" │");
        cell
    } else {
        let rank = card.rank.to_unicode();
        let mut cell = if rank.as_str().unicode_len() == 1 {
            String::from_str("│ ")
        } else {
            String::from_str("│")
        };
        cell.append(rank.as_str());
        cell.append(" │");
        cell
    };
    let suit_cell = match card.suit {
        Some(suit) if !card.is_joker() => {
            let mut cell = String::from_str("│ ");
            let glyph = suit.to_unicode();
            cell.append(glyph.as_str());
            cell.append(" │");
            cell
        },
        _ => String::from_str("│   │"),
    };
    let bottom = String::from_str("└───┘");
    let lines = vec![top, rank_cell, suit_cell, bottom];
    assert(lines@.map_values(|s: String| s@) =~= compact_cell(*card));
    lines
}

/// Renders a row of cards in the compact form: "No cards" when there are
/// none, else four rows joined by newlines.
pub fn render_compact(cards: &[Card]) -> (r: String)
    ensures
        r@ == compact_text(cards@),
{
    if cards.len() == 0 {
        return String::from_str("No cards");
    }
    let mut blocks: Vec<Vec<String>> = Vec::new();
    let mut i: usize = 0;
    while i < cards.len()
        invariant
            i <= cards@.len(),
            block_views(blocks@) == cards@.take(i as int).map_values(|c: Card| compact_cell(c)),
            forall|j: int| 0 <= j < blocks@.len() ==> #[trigger] blocks@[j]@.len() == COMPACT_HEIGHT,
        decreases cards@.len() - i,
    {
        let lines = compact_card_lines(&cards[i]);
        let ghost before = blocks@;
        let ghost cell = lines@.map_values(|s: String| s@);
        blocks.push(lines);
        assert(blocks@ == before.push(lines));
        assert(block_views(blocks@) =~= block_views(before).push(cell));
        assert(block_views(blocks@) =~= cards@.take(i + 1).map_values(|c: Card| compact_cell(c)));
        i = i + 1;
    }
    assert(cards@.take(i as int) =~= cards@);
    compose_blocks(&blocks, COMPACT_HEIGHT)
}

/// The compact rendering of a vector of cards.
pub trait SmallCardsDisplay {
    fn to_small_cards(&self) -> String;
}

impl SmallCardsDisplay for Vec<Card> {
    fn to_small_cards(&self) -> (r: String)
        ensures
            r@ == compact_text(self@),
    {
        render_compact(self.as_slice())
    }
}

} // verus!
