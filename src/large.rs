//! The large rendering: twelve rows per card, each thirteen characters wide,
//! with the rank and suit in two corners and pips or art inside.

use vstd::prelude::*;
use vstd::string::*;
use crate::card::{Card, Rank, Suit};
use crate::compact::no_cards;
use crate::card::pip_value;
use crate::display::{
    UnicodeDisplay, lemma_rank_labels, lemma_suit_glyphs, rank_label, suit_glyph, suit_mark,
};
use crate::text::{
    block_views, compose_blocks, join_lines, lemma_occurrences_absent, lemma_occurrences_concat,
    lemma_occurrences_once_at_start, lemma_occurrences_skip, lemma_rows_occurrences_concat,
    lemma_rows_occurrences_none, occurrences, rows_occurrences, side_by_side, spaces,
};

verus! {

/// Rows in a large rendering of a card.
pub const LARGE_HEIGHT: usize = 12;

/// One interior row of a number card: where its pips stand.
#[derive(Debug, Clone, Copy, PartialEq, Eq, Structural)]
pub enum PipRow {
    /// No pip.
    Blank,
    /// One pip in the middle.
    Center,
    /// One pip near each side.
    Sides,
    /// A pip near each side and one in the middle.
    Three,
    /// Two pips close to the middle.
    Inner,
}

/// The six interior rows of a number card, from top to bottom.
pub open spec fn pip_layout(r: Rank) -> Seq<PipRow> {
    match r {
        Rank::Two => seq![PipRow::Blank, PipRow::Center, PipRow::Blank, PipRow::Blank, PipRow::Center, PipRow::Blank],
        Rank::Three => seq![PipRow::Blank, PipRow::Center, PipRow::Blank, PipRow::Center, PipRow::Blank, PipRow::Center],
        Rank::Four => seq![PipRow::Blank, PipRow::Sides, PipRow::Blank, PipRow::Blank, PipRow::Sides, PipRow::Blank],
        Rank::Five => seq![PipRow::Blank, PipRow::Sides, PipRow::Blank, PipRow::Center, PipRow::Blank, PipRow::Sides],
        Rank::Six => seq![PipRow::Blank, PipRow::Sides, PipRow::Blank, PipRow::Sides, PipRow::Blank, PipRow::Sides],
        Rank::Seven => seq![PipRow::Blank, PipRow::Sides, PipRow::Blank, PipRow::Three, PipRow::Blank, PipRow::Sides],
        Rank::Eight => seq![PipRow::Blank, PipRow::Sides, PipRow::Sides, PipRow::Blank, PipRow::Sides, PipRow::Sides],
        Rank::Nine => seq![PipRow::Blank, PipRow::Inner, PipRow::Sides, PipRow::Center, PipRow::Sides, PipRow::Inner],
        Rank::Ten => seq![PipRow::Blank, PipRow::Sides, PipRow::Inner, PipRow::Sides, PipRow::Inner, PipRow::Sides],
        _ => Seq::new(6, |_i: int| PipRow::Blank),
    }
}

/// The eleven interior characters of a pip row, with mark `m` as the pip.
pub open spec fn pip_row(p: PipRow, m: Seq<char>) -> Seq<char> {
    match p {
        PipRow::Blank => spaces(11),
        PipRow::Center => spaces(5) + m + spaces(5),
        PipRow::Sides => spaces(2) + m + spaces(5) + m + spaces(2),
        PipRow::Three => spaces(2) + m + spaces(2) + m + spaces(2) + m + spaces(2),
        PipRow::Inner => spaces(4) + m + spaces(1) + m + spaces(4),
    }
}

/// The six interior rows between the corners, with mark `m` as the suit.
pub open spec fn card_body(r: Rank, m: Seq<char>) -> Seq<Seq<char>> {
    match r {
        Rank::Ace => seq![
            spaces(11),
            "    ___    "@,
            "   /   \\   "@,
            "  |  "@ + m + "  |  "@,
            "   \\___/   "@,
            spaces(11),
        ],
        Rank::Jack => seq![
            spaces(11),
            "   _____   "@,
            "  |     |  "@,
            "  | J   |  "@,
            "  |     |  "@,
            "  |_____|  "@,
        ],
        Rank::Queen => seq![
            spaces(11),
            "   _____   "@,
            "  /     \\  "@,
            "  | Q   |  "@,
            "  \\_____/  "@,
            "    /_\\    "@,
        ],
        Rank::King => seq![
            spaces(11),
            "   _____   "@,
            "  |/|\\|\\|  "@,
            "  | K   |  "@,
            "  |\\|\\|/|  "@,
            "  |_____|  "@,
        ],
        _ => pip_layout(r).map_values(|p: PipRow| pip_row(p, m)),
    }
}

/// An interior between two vertical bars.
pub open spec fn boxed(inner: Seq<char>) -> Seq<char> {
    "│"@ + inner + "│"@
}

/// The twelve rows of a joker.
pub open spec fn joker_cell() -> Seq<Seq<char>> {
    seq![
        "╭───────────╮"@,
        "│JOKER      │"@,
        "│           │"@,
        "│           │"@,
        "│    ___    │"@,
        "│   /   \\   │"@,
        "│  | o o |  │"@,
        "│  |  >  |  │"@,
        "│   \\_-_/   │"@,
        "│           │"@,
        "│      JOKER│"@,
        "╰───────────╯"@,
    ]
}

/// The twelve rows of one card: top border; rank and suit in the top left
/// corner; the body; suit and rank in the bottom right corner; bottom border.
pub open spec fn large_cell(c: Card) -> Seq<Seq<char>> {
    if c.rank == Rank::Joker {
        joker_cell()
    } else {
        let label = rank_label(c.rank);
        let m = suit_mark(c.suit);
        let pad = spaces((11 - label.len()) as nat);
        seq!["╭───────────╮"@, boxed(label + pad), boxed(m + spaces(10))]
            + card_body(c.rank, m).map_values(|row: Seq<char>| boxed(row))
            + seq![boxed(spaces(10) + m), boxed(pad + label), "╰───────────╯"@]
    }
}

/// The twelve rows of a row of cards: the cells laid side by side.
pub open spec fn large_rows(cards: Seq<Card>) -> Seq<Seq<char>> {
    side_by_side(cards.map_values(|c: Card| large_cell(c)), 12)
}

/// The large rendering of a row of cards.
pub open spec fn large_text(cards: Seq<Card>) -> Seq<char> {
    if cards.len() == 0 {
        no_cards()
    } else {
        join_lines(large_rows(cards))
    }
}

/// `n` blanks, as a string.
fn blanks(n: usize) -> (r: String)
    ensures
        r@ == spaces(n as nat),
{
    let mut r = String::new();
    let mut i: usize = 0;
    while i < n
        invariant
            i <= n,
            r@ == spaces(i as nat),
        decreases n - i,
    {
        proof {
            reveal_strlit(" ");
        }
        r.append(" ");
        assert(r@ =~= spaces((i + 1) as nat));
        i = i + 1;
    }
    r
}

/// Where the pips of a number rank stand, row by row.
fn pip_layout_of(r: Rank) -> (rows: Vec<PipRow>)
    ensures
        rows@ == pip_layout(r),
{
    let b = PipRow::Blank;
    let c = PipRow::Center;
    let s = PipRow::Sides;
    let t = PipRow::Three;
    let n = PipRow::Inner;
    let rows = match r {
        Rank::Two => vec![b, c, b, b, c, b],
        Rank::Three => vec![b, c, b, c, b, c],
        Rank::Four => vec![b, s, b, b, s, b],
        Rank::Five => vec![b, s, b, c, b, s],
        Rank::Six => vec![b, s, b, s, b, s],
        Rank::Seven => vec![b, s, b, t, b, s],
        Rank::Eight => vec![b, s, s, b, s, s],
        Rank::Nine => vec![b, n, s, c, s, n],
        Rank::Ten => vec![b, s, n, s, n, s],
        _ => vec![b, b, b, b, b, b],
    };
    assert(rows@ =~= pip_layout(r));
    rows
}

/// One pip row, with `m` as the pip.
fn pip_row_text(p: PipRow, m: &str) -> (r: String)
    ensures
        r@ == pip_row(p, m@),
{
    match p {
        PipRow::Blank => blanks(11),
        PipRow::Center => {
            let mut r = blanks(5);
            r.append(m);
            r.append(blanks(5).as_str());
            r
        },
        PipRow::Sides => {
            let mut r = blanks(2);
            r.append(m);
            r.append(blanks(5).as_str());
            r.append(m);
            r.append(blanks(2).as_str());
            r
        },
        PipRow::Three => {
            let mut r = blanks(2);
            r.append(m);
            r.append(blanks(2).as_str());
            r.append(m);
            r.append(blanks(2).as_str());
            r.append(m);
            r.append(blanks(2).as_str());
            r
        },
        PipRow::Inner => {
            let mut r = blanks(4);
            r.append(m);
            r.append(blanks(1).as_str());
            r.append(m);
            r.append(blanks(4).as_str());
            r
        },
    }
}

/// The six body rows of a card, with `m` as the suit mark.
fn card_body_rows(r: Rank, m: &str) -> (rows: Vec<String>)
    ensures
        rows@.map_values(|s: String| s@) == card_body(r, m@),
{
    let rows = match r {
        Rank::Ace => {
            let mut center = String::from_str("  |  ");
            center.append(m);
            center.append("  |  ");
            vec![
                blanks(11),
                String::from_str("    ___    "),
                String::from_str("   /   \\   "),
                center,
                String::from_str("   \\___/   "),
                blanks(11),
            ]
        },
        Rank::Jack => vec![
            blanks(11),
            String::from_str("   _____   "),
            String::from_str("  |     |  "),
            String::from_str("  | J   |  "),
            String::from_str("  |     |  "),
            String::from_str("  |_____|  "),
        ],
        Rank::Queen => vec![
            blanks(11),
            String::from_str("   _____   "),
            String::from_str("  /     \\  "),
            String::from_str("  | Q   |  "),
            String::from_str("  \\_____/  "),
            String::from_str("    /_\\    "),
        ],
        Rank::King => vec![
            blanks(11),
            String::from_str("   _____   "),
            String::from_str("  |/|\\|\\|  "),
            String::from_str("  | K   |  "),
            String::from_str("  |\\|\\|/|  "),
            String::from_str("  |_____|  "),
        ],
        _ => {
            let layout = pip_layout_of(r);
            let mut rows: Vec<String> = Vec::new();
            let mut i: usize = 0;
            while i < layout.len()
                invariant
                    i <= layout@.len(),
                    layout@ == pip_layout(r),
                    rows@.map_values(|s: String| s@)
                        == layout@.take(i as int).map_values(|p: PipRow| pip_row(p, m@)),
                decreases layout@.len() - i,
            {
                let row = pip_row_text(layout[i], m);
                let ghost before = rows@;
                rows.push(row);
                assert(rows@ == before.push(row));
                assert(rows@.map_values(|s: String| s@)
                    =~= before.map_values(|s: String| s@).push(pip_row(layout@[i as int], m@)));
                assert(layout@.take(i + 1).map_values(|p: PipRow| pip_row(p, m@))
                    =~= layout@.take(i as int).map_values(|p: PipRow| pip_row(p, m@)).push(
                    pip_row(layout@[i as int], m@),
                ));
                assert(rows@.map_values(|s: String| s@)
                    =~= layout@.take(i + 1).map_values(|p: PipRow| pip_row(p, m@)));
                i = i + 1;
            }
            assert(layout@.take(i as int) =~= layout@);
            rows
        },
    };
    assert(rows@.map_values(|s: String| s@) =~= card_body(r, m@));
    rows
}

/// Appends `inner` between two vertical bars to `rows`.
fn push_boxed(rows: &mut Vec<String>, inner: &str)
    ensures
        final(rows)@.map_values(|s: String| s@)
            == old(rows)@.map_values(|s: String| s@).push(boxed(inner@)),
{
    let mut row = String::from_str("│");
    row.append(inner);
    row.append("│");
    let ghost before = rows@;
    rows.push(row);
    assert(rows@ == before.push(row));
    assert(rows@.map_values(|s: String| s@)
        =~= before.map_values(|s: String| s@).push(boxed(inner@)));
}

/// The twelve rows of one card, as strings.
fn get_large_card_representation(card: &Card) -> (lines: Vec<String>)
    ensures
        lines@.len() == LARGE_HEIGHT,
        lines@.map_values(|s: String| s@) == large_cell(*card),
{
    if card.is_joker() {
        let lines = vec![
            String::from_str("╭───────────╮"),
            String::from_str("│JOKER      │"),
            String::from_str("│           │"),
            String::from_str("│           │"),
            String::from_str("│    ___    │"),
            String::from_str("│   /   \\   │"),
            String::from_str("│  | o o |  │"),
            String::from_str("│  |  >  |  │"),
            String::from_str("│   \\_-_/   │"),
            String::from_str("│           │"),
            String::from_str("│      JOKER│"),
            String::from_str("╰───────────╯"),
        ];
        assert(lines@.map_values(|s: String| s@) =~= joker_cell());
        return lines;
    }
    let label = card.rank.to_unicode();
    let mark = match card.suit {
        Some(suit) => suit.to_unicode(),
        None => String::from_str(" "),
    };
    let label_len = label.as_str().unicode_len();
    proof {
        reveal_strlit("A");
        reveal_strlit("2");
        reveal_strlit("3");
        reveal_strlit("4");
        reveal_strlit("5");
        reveal_strlit("6");
        reveal_strlit("7");
        reveal_strlit("8");
        reveal_strlit("9");
        reveal_strlit("10");
        reveal_strlit("J");
        reveal_strlit("Q");
        reveal_strlit("K");
    }
    assert(label_len <= 11);
    let pad = blanks(11 - label_len);
    let ghost label_view = label@;
    let ghost m = mark@;

    let mut lines: Vec<String> = Vec::new();
    lines.push(String::from_str("╭───────────╮"));
    let mut top_label = label.clone();
    top_label.append(pad.as_str());
    push_boxed(&mut lines, top_label.as_str());
    let mut top_mark = mark.clone();
    top_mark.append(blanks(10).as_str());
    push_boxed(&mut lines, top_mark.as_str());

    let body = card_body_rows(card.rank, mark.as_str());
    let mut i: usize = 0;
    while i < body.len()
        invariant
            i <= body@.len(),
            body@.map_values(|s: String| s@) == card_body(card.rank, m),
            lines@.map_values(|s: String| s@) == seq![
                "╭───────────╮"@,
                boxed(label_view + pad@),
                boxed(m + spaces(10)),
            ] + body@.take(i as int).map_values(|s: String| boxed(s@)),
        decreases body@.len() - i,
    {
        push_boxed(&mut lines, body[i].as_str());
        assert(body@.take(i + 1).map_values(|s: String| boxed(s@))
            =~= body@.take(i as int).map_values(|s: String| boxed(s@)).push(boxed(body@[i as int]@)));
        i = i + 1;
    }

    let mut bottom_mark = blanks(10);
    bottom_mark.append(mark.as_str());
    push_boxed(&mut lines, bottom_mark.as_str());
    let mut bottom_label = pad.clone();
    bottom_label.append(label.as_str());
    push_boxed(&mut lines, bottom_label.as_str());
    let ghost before = lines@;
    let bottom = String::from_str("╰───────────╯");
    lines.push(bottom);
    assert(lines@ == before.push(bottom));
    assert(lines@.map_values(|s: String| s@)
        =~= before.map_values(|s: String| s@).push("╰───────────╯"@));
    assert(body@.take(i as int) =~= body@);
    assert(body@.map_values(|s: String| boxed(s@))
        =~= card_body(card.rank, m).map_values(|row: Seq<char>| boxed(row)));
    assert(card.rank != Rank::Joker);
    assert(label_view == rank_label(card.rank));
    assert(m == suit_mark(card.suit));
    assert(pad@ == spaces((11 - label_view.len()) as nat));
    assert(lines@.map_values(|s: String| s@) =~= large_cell(*card));
    lines
}

/// Renders a row of cards in the large form: "No cards" when there are
/// none, else twelve rows joined by newlines.
pub fn render_large(cards: &[Card]) -> (r: String)
    ensures
        r@ == large_text(cards@),
{
    if cards.len() == 0 {
        return String::from_str("No cards");
    }
    let mut blocks: Vec<Vec<String>> = Vec::new();
    let mut i: usize = 0;
    while i < cards.len()
        invariant
            i <= cards@.len(),
            block_views(blocks@) == cards@.take(i as int).map_values(|c: Card| large_cell(c)),
            forall|j: int| 0 <= j < blocks@.len() ==> #[trigger] blocks@[j]@.len() == LARGE_HEIGHT,
        decreases cards@.len() - i,
    {
        let lines = get_large_card_representation(&cards[i]);
        let ghost before = blocks@;
        let ghost cell = lines@.map_values(|s: String| s@);
        blocks.push(lines);
        assert(blocks@ == before.push(lines));
        assert(block_views(blocks@) =~= block_views(before).push(cell));
        assert(block_views(blocks@) =~= cards@.take(i + 1).map_values(|c: Card| large_cell(c)));
        i = i + 1;
    }
    assert(cards@.take(i as int) =~= cards@);
    compose_blocks(&blocks, LARGE_HEIGHT)
}

/// The large rendering of a vector of cards.
pub trait LargeCardsDisplay {
    fn to_large_cards(&self) -> String;
}

impl LargeCardsDisplay for Vec<Card> {
    fn to_large_cards(&self) -> (r: String)
        ensures
            r@ == large_text(self@),
    {
        render_large(self.as_slice())
    }
}

/// The body rows of a card are eleven characters wide, none a newline, when
/// the suit mark is one character and not a newline.
pub proof fn lemma_card_body_shape(r: Rank, m: Seq<char>)
    requires
        m.len() == 1,
        m[0] != '\n',
    ensures
        card_body(r, m).len() == 6,
        forall|i: int| 0 <= i < 6 ==> #[trigger] card_body(r, m)[i].len() == 11,
        forall|i: int, k: int|
            0 <= i < 6 && 0 <= k < 11 ==> #[trigger] card_body(r, m)[i][k] != '\n',
{
    reveal_strlit("    ___    ");
    reveal_strlit("   /   \\   ");
    reveal_strlit("  |  ");
    reveal_strlit("   \\___/   ");
    reveal_strlit("   _____   ");
    reveal_strlit("  |     |  ");
    reveal_strlit("  | J   |  ");
    reveal_strlit("  |_____|  ");
    reveal_strlit("  /     \\  ");
    reveal_strlit("  | Q   |  ");
    reveal_strlit("  \\_____/  ");
    reveal_strlit("    /_\\    ");
    reveal_strlit("  |/|\\|\\|  ");
    reveal_strlit("  | K   |  ");
    reveal_strlit("  |\\|\\|/|  ");
    let body = card_body(r, m);
    assert forall|i: int| 0 <= i < 6 implies #[trigger] body[i].len() == 11
        && forall|k: int| 0 <= k < 11 ==> body[i][k] != '\n' by {
        if pip_value(r).is_some() {
            let p = pip_layout(r)[i];
            assert(body[i] == pip_row(p, m));
        }
    }
}

/// Every row of a large cell is thirteen characters, none a newline.
pub proof fn lemma_large_cell_shape(c: Card)
    ensures
        large_cell(c).len() == 12,
        forall|i: int| 0 <= i < 12 ==> #[trigger] large_cell(c)[i].len() == 13,
        forall|i: int, k: int|
            0 <= i < 12 && 0 <= k < 13 ==> #[trigger] large_cell(c)[i][k] != '\n',
{
    reveal_strlit("╭───────────╮");
    reveal_strlit("╰───────────╯");
    reveal_strlit("│");
    reveal_strlit(" ");
    reveal_strlit("│JOKER      │");
    reveal_strlit("│           │");
    reveal_strlit("│    ___    │");
    reveal_strlit("│   /   \\   │");
    reveal_strlit("│  | o o |  │");
    reveal_strlit("│  |  >  |  │");
    reveal_strlit("│   \\_-_/   │");
    reveal_strlit("│      JOKER│");
    lemma_rank_labels();
    lemma_suit_glyphs();
    reveal_strlit("♣");
    reveal_strlit("♦");
    reveal_strlit("♥");
    reveal_strlit("♠");
    if c.rank != Rank::Joker {
        let label = rank_label(c.rank);
        let m = suit_mark(c.suit);
        let pad = spaces((11 - label.len()) as nat);
        lemma_card_body_shape(c.rank, m);
        let body = card_body(c.rank, m);
        let rows = large_cell(c);
        assert forall|i: int| 0 <= i < 12 implies #[trigger] rows[i].len() == 13
            && forall|k: int| 0 <= k < 13 ==> rows[i][k] != '\n' by {
            if 3 <= i < 9 {
                assert(rows[i] == boxed(body[i - 3]));
            } else if i == 1 {
                assert(rows[i] == boxed(label + pad));
                assert forall|k: int| 0 <= k < 13 implies rows[i][k] != '\n' by {
                    if 1 <= k < 1 + label.len() {
                        assert(rows[i][k] == label[k - 1]);
                    }
                }
            } else if i == 10 {
                assert(rows[i] == boxed(pad + label));
                assert forall|k: int| 0 <= k < 13 implies rows[i][k] != '\n' by {
                    if 12 - label.len() <= k < 12 {
                        assert(rows[i][k] == label[k - 12 + label.len()]);
                    }
                }
            }
        }
    }
}

/// How many pips a pip row holds.
pub open spec fn pip_count(p: PipRow) -> nat {
    match p {
        PipRow::Blank => 0,
        PipRow::Center => 1,
        PipRow::Sides => 2,
        PipRow::Three => 3,
        PipRow::Inner => 2,
    }
}

/// Boxing a row adds no occurrence of a character other than the bar.
proof fn lemma_boxed_occurrences(row: Seq<char>, g: char)
    requires
        g != '│',
    ensures
        occurrences(boxed(row), seq![g]) == occurrences(row, seq![g]),
{
    reveal_strlit("│");
    let bar = "│"@;
    lemma_occurrences_concat(bar + row, bar, seq![g]);
    lemma_occurrences_concat(bar, row, seq![g]);
    lemma_occurrences_absent(bar, seq![g]);
}

/// Blanks hold no occurrence of a character other than the blank.
proof fn lemma_spaces_occurrences(n: nat, g: char)
    requires
        g != ' ',
    ensures
        occurrences(spaces(n), seq![g]) == 0,
{
    lemma_occurrences_absent(spaces(n), seq![g]);
}

/// A one-character text occurs once in itself.
proof fn lemma_self_occurrence(g: char)
    ensures
        occurrences(seq![g], seq![g]) == 1,
{
    let s = seq![g];
    assert(s.subrange(0, 1) =~= s);
    assert(s.drop_first() =~= Seq::<char>::empty());
    assert(occurrences(s.drop_first(), s) == 0);
}

/// A pip row drawn with glyph `g` holds `g` as often as it has pips.
proof fn lemma_pip_row_occurrences(p: PipRow, g: char)
    requires
        g != ' ',
    ensures
        occurrences(pip_row(p, seq![g]), seq![g]) == pip_count(p),
{
    let m = seq![g];
    let pat = seq![g];
    lemma_self_occurrence(g);
    lemma_spaces_occurrences(1, g);
    lemma_spaces_occurrences(2, g);
    lemma_spaces_occurrences(4, g);
    lemma_spaces_occurrences(5, g);
    lemma_spaces_occurrences(11, g);
    match p {
        PipRow::Blank => {},
        PipRow::Center => {
            lemma_occurrences_concat(spaces(5) + m, spaces(5), pat);
            lemma_occurrences_concat(spaces(5), m, pat);
        },
        PipRow::Sides => {
            lemma_occurrences_concat(spaces(2) + m + spaces(5) + m, spaces(2), pat);
            lemma_occurrences_concat(spaces(2) + m + spaces(5), m, pat);
            lemma_occurrences_concat(spaces(2) + m, spaces(5), pat);
            lemma_occurrences_concat(spaces(2), m, pat);
        },
        PipRow::Three => {
            let a = spaces(2) + m;
            lemma_occurrences_concat(a + spaces(2) + m + spaces(2) + m, spaces(2), pat);
            lemma_occurrences_concat(a + spaces(2) + m + spaces(2), m, pat);
            lemma_occurrences_concat(a + spaces(2) + m, spaces(2), pat);
            lemma_occurrences_concat(a + spaces(2), m, pat);
            lemma_occurrences_concat(a, spaces(2), pat);
            lemma_occurrences_concat(spaces(2), m, pat);
        },
        PipRow::Inner => {
            lemma_occurrences_concat(spaces(4) + m + spaces(1) + m, spaces(4), pat);
            lemma_occurrences_concat(spaces(4) + m + spaces(1), m, pat);
            lemma_occurrences_concat(spaces(4) + m, spaces(1), pat);
            lemma_occurrences_concat(spaces(4), m, pat);
        },
    }
}

/// Row counts of three rows, and of six rows, spelled out.
proof fn lemma_rows_occurrences_unfold(rows: Seq<Seq<char>>, pat: Seq<char>)
    ensures
        rows.len() == 3 ==> rows_occurrences(rows, pat) == occurrences(rows[0], pat)
            + occurrences(rows[1], pat) + occurrences(rows[2], pat),
        rows.len() == 6 ==> rows_occurrences(rows, pat) == occurrences(rows[0], pat)
            + occurrences(rows[1], pat) + occurrences(rows[2], pat) + occurrences(rows[3], pat)
            + occurrences(rows[4], pat) + occurrences(rows[5], pat),
{
    reveal_with_fuel(rows_occurrences, 7);
}

/// Row counts of boxed rows are those of the rows, for a character other than the bar.
proof fn lemma_rows_occurrences_boxed(rows: Seq<Seq<char>>, g: char)
    requires
        g != '│',
    ensures
        rows_occurrences(rows.map_values(|r: Seq<char>| boxed(r)), seq![g])
            == rows_occurrences(rows, seq![g]),
    decreases rows.len(),
{
    if rows.len() > 0 {
        let boxed_rows = rows.map_values(|r: Seq<char>| boxed(r));
        assert(boxed_rows.drop_last() =~= rows.drop_last().map_values(|r: Seq<char>| boxed(r)));
        lemma_rows_occurrences_boxed(rows.drop_last(), g);
        lemma_boxed_occurrences(rows.last(), g);
    }
}

/// How many suit glyphs the body of a card holds: one for the ace, one per
/// pip for a number card, none for a face.
pub open spec fn body_pips(r: Rank) -> nat {
    match pip_value(r) {
        Some(n) => n,
        None => if r == Rank::Ace { 1 } else { 0 },
    }
}

/// The body of a number card drawn with the glyph of suit `s` holds that
/// glyph once per pip.
proof fn lemma_pip_body_occurrences(r: Rank, s: Suit)
    requires
        pip_value(r).is_some(),
    ensures
        rows_occurrences(card_body(r, suit_glyph(s)), suit_glyph(s)) == body_pips(r),
{
    reveal_strlit("♣");
    reveal_strlit("♦");
    reveal_strlit("♥");
    reveal_strlit("♠");
    let m = suit_glyph(s);
    let g = m[0];
    assert(m =~= seq![g]);
    let body = card_body(r, m);
    lemma_rows_occurrences_unfold(body, m);
    assert forall|i: int| 0 <= i < 6 implies #[trigger] occurrences(body[i], m)
        == pip_count(pip_layout(r)[i]) by {
        lemma_pip_row_occurrences(pip_layout(r)[i], g);
    }
}

/// The body of an ace drawn with the glyph of suit `s` holds that glyph
/// once; the body of a face card holds it nowhere.
proof fn lemma_art_body_occurrences(r: Rank, s: Suit)
    requires
        r == Rank::Ace || r == Rank::Jack || r == Rank::Queen || r == Rank::King,
    ensures
        rows_occurrences(card_body(r, suit_glyph(s)), suit_glyph(s)) == body_pips(r),
{
    reveal_strlit("♣");
    reveal_strlit("♦");
    reveal_strlit("♥");
    reveal_strlit("♠");
    reveal_strlit("    ___    ");
    reveal_strlit("   /   \\   ");
    reveal_strlit("  |  ");
    reveal_strlit("   \\___/   ");
    reveal_strlit("   _____   ");
    reveal_strlit("  |     |  ");
    reveal_strlit("  | J   |  ");
    reveal_strlit("  |_____|  ");
    reveal_strlit("  /     \\  ");
    reveal_strlit("  | Q   |  ");
    reveal_strlit("  \\_____/  ");
    reveal_strlit("    /_\\    ");
    reveal_strlit("  |/|\\|\\|  ");
    reveal_strlit("  | K   |  ");
    reveal_strlit("  |\\|\\|/|  ");
    let m = suit_glyph(s);
    let g = m[0];
    assert(m =~= seq![g]);
    let body = card_body(r, m);
    lemma_rows_occurrences_unfold(body, m);
    assert forall|i: int| 0 <= i < 6 && i != 3 implies #[trigger] occurrences(body[i], m) == 0 by {
        lemma_occurrences_absent(body[i], m);
    }
    if r == Rank::Ace {
        let side = "  |  "@;
        lemma_occurrences_concat(side + m, side, m);
        lemma_occurrences_concat(side, m, m);
        lemma_occurrences_absent(side, m);
        lemma_self_occurrence(g);
    } else {
        lemma_occurrences_absent(body[3], m);
    }
}

/// The body of a card drawn with the glyph of suit `s` holds that glyph
/// `body_pips` times.
proof fn lemma_card_body_occurrences(r: Rank, s: Suit)
    requires
        r != Rank::Joker,
    ensures
        rows_occurrences(card_body(r, suit_glyph(s)), suit_glyph(s)) == body_pips(r),
{
    if pip_value(r).is_some() {
        lemma_pip_body_occurrences(r, s);
    } else {
        lemma_art_body_occurrences(r, s);
    }
}

/// The large cell of a card of suit `s` other than a joker holds the glyph
/// of `s` twice in its corners, besides what its body holds.
pub proof fn lemma_large_cell_occurrences(c: Card, s: Suit)
    requires
        c.rank != Rank::Joker,
        c.suit == Some(s),
    ensures
        rows_occurrences(large_cell(c), suit_glyph(s)) == body_pips(c.rank) + 2,
{
    reveal_strlit("♣");
    reveal_strlit("♦");
    reveal_strlit("♥");
    reveal_strlit("♠");
    reveal_strlit("╭───────────╮");
    reveal_strlit("╰───────────╯");
    reveal_strlit("│");
    lemma_rank_labels();
    let m = suit_glyph(s);
    let g = m[0];
    assert(m =~= seq![g]);
    let label = rank_label(c.rank);
    let pad = spaces((11 - label.len()) as nat);
    let body = card_body(c.rank, m);
    let head = seq!["╭───────────╮"@, boxed(label + pad), boxed(m + spaces(10))];
    let middle = body.map_values(|row: Seq<char>| boxed(row));
    let foot = seq![boxed(spaces(10) + m), boxed(pad + label), "╰───────────╯"@];
    assert(large_cell(c) == head + middle + foot);
    lemma_rows_occurrences_concat(head + middle, foot, m);
    lemma_rows_occurrences_concat(head, middle, m);
    lemma_rows_occurrences_unfold(head, m);
    lemma_rows_occurrences_unfold(foot, m);
    lemma_rows_occurrences_boxed(body, g);
    lemma_card_body_occurrences(c.rank, s);

    lemma_occurrences_absent("╭───────────╮"@, m);
    lemma_occurrences_absent("╰───────────╯"@, m);
    lemma_boxed_occurrences(label + pad, g);
    lemma_occurrences_absent(label + pad, m);
    lemma_boxed_occurrences(pad + label, g);
    lemma_occurrences_absent(pad + label, m);
    lemma_self_occurrence(g);
    lemma_spaces_occurrences(10, g);
    lemma_boxed_occurrences(m + spaces(10), g);
    lemma_occurrences_concat(m, spaces(10), m);
    lemma_boxed_occurrences(spaces(10) + m, g);
    lemma_occurrences_concat(spaces(10), m, m);
}

/// The joker's rows hold its name twice and no suit glyph.
pub proof fn lemma_joker_cell_occurrences()
    ensures
        rows_occurrences(joker_cell(), "JOKER"@) == 2,
        forall|s: Suit| rows_occurrences(joker_cell(), #[trigger] suit_glyph(s)) == 0,
{
    reveal_strlit("JOKER");
    reveal_strlit("♣");
    reveal_strlit("♦");
    reveal_strlit("♥");
    reveal_strlit("♠");
    reveal_strlit("╭───────────╮");
    reveal_strlit("│JOKER      │");
    reveal_strlit("│           │");
    reveal_strlit("│    ___    │");
    reveal_strlit("│   /   \\   │");
    reveal_strlit("│  | o o |  │");
    reveal_strlit("│  |  >  |  │");
    reveal_strlit("│   \\_-_/   │");
    reveal_strlit("│      JOKER│");
    reveal_strlit("╰───────────╯");
    let rows = joker_cell();
    let name = "JOKER"@;
    assert forall|i: int| 0 <= i < 12 && i != 1 && i != 10 implies occurrences(#[trigger] rows[i], name) == 0 by {
        lemma_occurrences_absent(rows[i], name);
    }
    lemma_occurrences_skip(rows[1], name, 1);
    assert(rows[1].skip(1).subrange(0, 5) =~= name);
    lemma_occurrences_once_at_start(rows[1].skip(1), name);
    lemma_occurrences_skip(rows[10], name, 7);
    assert(rows[10].skip(7).subrange(0, 5) =~= name);
    lemma_occurrences_once_at_start(rows[10].skip(7), name);
    reveal_with_fuel(rows_occurrences, 13);
    assert forall|s: Suit| rows_occurrences(rows, #[trigger] suit_glyph(s)) == 0 by {
        assert forall|i: int| 0 <= i < rows.len() implies occurrences(#[trigger] rows[i], suit_glyph(s)) == 0 by {
            lemma_occurrences_absent(rows[i], suit_glyph(s));
        }
        lemma_rows_occurrences_none(rows, suit_glyph(s));
    }
}

} // verus!
