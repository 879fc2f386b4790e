//! Properties that hold of every rendering, stated over the models that the
//! renderers' contracts use.

use vstd::prelude::*;
use crate::card::{Card, Rank, Suit, pip_value};
use crate::compact::{compact_cell, compact_rows, compact_text, lemma_compact_cell_shape};
use crate::display::{lemma_suit_glyphs, suit_glyph};
use crate::large::{
    joker_cell, large_cell, large_rows, large_text, lemma_joker_cell_occurrences,
    lemma_large_cell_occurrences, lemma_large_cell_shape,
};
use crate::text::{join_lines, lemma_occurrences_join, lemma_row_across_shape, occurrences, row_across};

verus! {

/// The compact rendering of one or more cards is four rows joined by
/// newlines; each row is five characters per card and holds no newline.
pub proof fn compact_rendering_shape(cards: Seq<Card>)
    requires
        cards.len() > 0,
    ensures
        compact_text(cards) == join_lines(compact_rows(cards)),
        compact_rows(cards).len() == 4,
        forall|i: int|
            0 <= i < 4 ==> #[trigger] compact_rows(cards)[i].len() == 5 * cards.len()
                && !compact_rows(cards)[i].contains('\n'),
{
    let blocks = cards.map_values(|c: Card| compact_cell(c));
    assert forall|j: int| 0 <= j < blocks.len() implies #[trigger] blocks[j] == compact_cell(cards[j]) && blocks[j].len() == 4
        && (forall|i: int| 0 <= i < 4 ==> #[trigger] blocks[j][i].len() == 5)
        && (forall|i: int, k: int| 0 <= i < 4 && 0 <= k < 5 ==> #[trigger] blocks[j][i][k] != '\n') by {
        lemma_compact_cell_shape(cards[j]);
    }
    assert forall|i: int| 0 <= i < 4 implies #[trigger] compact_rows(cards)[i].len() == 5 * cards.len()
        && !compact_rows(cards)[i].contains('\n') by {
        lemma_row_across_shape(blocks, i, 5);
    }
}

/// The large rendering of one or more cards is twelve rows joined by
/// newlines; each row is thirteen characters per card and holds no newline.
pub proof fn large_rendering_shape(cards: Seq<Card>)
    requires
        cards.len() > 0,
    ensures
        large_text(cards) == join_lines(large_rows(cards)),
        large_rows(cards).len() == 12,
        forall|i: int|
            0 <= i < 12 ==> #[trigger] large_rows(cards)[i].len() == 13 * cards.len()
                && !large_rows(cards)[i].contains('\n'),
{
    let blocks = cards.map_values(|c: Card| large_cell(c));
    assert forall|j: int| 0 <= j < blocks.len() implies #[trigger] blocks[j] == large_cell(cards[j]) && blocks[j].len() == 12
        && (forall|i: int| 0 <= i < 12 ==> #[trigger] blocks[j][i].len() == 13)
        && (forall|i: int, k: int| 0 <= i < 12 && 0 <= k < 13 ==> #[trigger] blocks[j][i][k] != '\n') by {
        lemma_large_cell_shape(cards[j]);
    }
    assert forall|i: int| 0 <= i < 12 implies #[trigger] large_rows(cards)[i].len() == 13 * cards.len()
        && !large_rows(cards)[i].contains('\n') by {
        lemma_row_across_shape(blocks, i, 13);
    }
}

/// The large rendering of a single card is its cell's rows joined by newlines.
proof fn lemma_single_large(c: Card)
    ensures
        large_text(seq![c]) == join_lines(large_cell(c)),
{
    lemma_large_cell_shape(c);
    let blocks = seq![c].map_values(|d: Card| large_cell(d));
    assert(blocks.drop_last() =~= Seq::<Seq<Seq<char>>>::empty());
    assert forall|i: int| 0 <= i < 12 implies #[trigger] large_rows(seq![c])[i] == large_cell(c)[i] by {
        assert(blocks.last() == large_cell(c));
        assert(row_across(blocks.drop_last(), i) == Seq::<char>::empty());
        assert(row_across(blocks, i) =~= large_cell(c)[i]);
    }
    assert(large_rows(seq![c]) =~= large_cell(c));
}

/// How often its suit's glyph shows in the large rendering of a card: three
/// times for an ace, two more than its value for a number card, twice for a
/// face card; a joker shows none.
pub open spec fn suit_symbol_count(r: Rank) -> nat {
    match r {
        Rank::Ace => 3,
        Rank::Jack | Rank::Queen | Rank::King => 2,
        Rank::Joker => 0,
        _ => pip_value(r).unwrap() + 2,
    }
}

/// In the large rendering of a card other than a joker, the glyph of its suit
/// occurs `suit_symbol_count` times: once in each corner, and once per pip.
pub proof fn large_rendering_suit_symbols(c: Card, s: Suit)
    requires
        c.rank != Rank::Joker,
        c.suit == Some(s),
    ensures
        occurrences(large_text(seq![c]), suit_glyph(s)) == suit_symbol_count(c.rank),
{
    lemma_single_large(c);
    lemma_suit_glyphs();
    reveal_strlit("♣");
    reveal_strlit("♦");
    reveal_strlit("♥");
    reveal_strlit("♠");
    lemma_occurrences_join(large_cell(c), suit_glyph(s));
    lemma_large_cell_occurrences(c, s);
}

/// The large rendering of a joker holds the word JOKER exactly twice, and no
/// suit glyph.
pub proof fn large_rendering_joker(c: Card)
    requires
        c.rank == Rank::Joker,
    ensures
        occurrences(large_text(seq![c]), "JOKER"@) == 2,
        forall|s: Suit| occurrences(large_text(seq![c]), #[trigger] suit_glyph(s)) == 0,
{
    lemma_single_large(c);
    lemma_suit_glyphs();
    reveal_strlit("JOKER");
    reveal_strlit("♣");
    reveal_strlit("♦");
    reveal_strlit("♥");
    reveal_strlit("♠");
    reveal_strlit("╭───────────╮");
    reveal_strlit("│");
    reveal_strlit("╰───────────╯");
    let rows = joker_cell();
    assert(large_cell(c) == rows);
    lemma_joker_cell_occurrences();
    assert forall|i: int| 0 <= i < rows.len() implies #[trigger] rows[i].len() > 0
        && !"JOKER"@.contains(rows[i][0]) by {
        lemma_large_cell_shape(c);
        reveal_strlit("│JOKER      │");
        reveal_strlit("│           │");
        reveal_strlit("│    ___    │");
        reveal_strlit("│   /   \\   │");
        reveal_strlit("│  | o o |  │");
        reveal_strlit("│  |  >  |  │");
        reveal_strlit("│   \\_-_/   │");
        reveal_strlit("│      JOKER│");
    }
    lemma_occurrences_join(rows, "JOKER"@);
    assert forall|s: Suit| occurrences(large_text(seq![c]), #[trigger] suit_glyph(s)) == 0 by {
        lemma_occurrences_join(rows, suit_glyph(s));
    }
}

/// Rendering depends on nothing but the cards: equal rows of cards render to
/// equal texts, in both forms.
pub proof fn rendering_is_deterministic(a: Seq<Card>, b: Seq<Card>)
    requires
        a == b,
    ensures
        compact_text(a) == compact_text(b),
        large_text(a) == large_text(b),
{
}

} // verus!
