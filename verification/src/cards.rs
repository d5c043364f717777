//! The catalog of the sixteen movement cards.
//!
//! A [`Card`] is a handle into the catalog: it names one fixed set of
//! offsets. Offsets are written from red's point of view, as `Pos(row, col)`
//! steps on the board; blue plays every card mirrored through the origin.

use crate::game::Pos;
use crate::rng::{clock_seed, next_in_range, seeded};
use vstd::prelude::*;

verus! {

/// The largest number of offsets on any card.
pub const LARGEST_CARD: usize = 4;

/// One of the sixteen cards.
#[derive(Clone, Copy, PartialEq, Eq, Debug, Hash, Structural)]
pub enum Card {
    Boar,
    Cobra,
    Crab,
    Crane,
    Dragon,
    Eel,
    Elephant,
    Frog,
    Goose,
    Horse,
    Mantis,
    Monkey,
    Ox,
    Rabbit,
    Rooster,
    Tiger,
}

pub const BOAR: Card = Card::Boar;

pub const COBRA: Card = Card::Cobra;

pub const CRAB: Card = Card::Crab;

pub const CRANE: Card = Card::Crane;

pub const DRAGON: Card = Card::Dragon;

pub const EEL: Card = Card::Eel;

pub const ELEPHANT: Card = Card::Elephant;

pub const FROG: Card = Card::Frog;

pub const GOOSE: Card = Card::Goose;

pub const HORSE: Card = Card::Horse;

pub const MANTIS: Card = Card::Mantis;

pub const MONKEY: Card = Card::Monkey;

pub const OX: Card = Card::Ox;

pub const RABBIT: Card = Card::Rabbit;

pub const ROOSTER: Card = Card::Rooster;

pub const TIGER: Card = Card::Tiger;

/// Every card, in catalog order.
pub const ALL_CARDS: [Card; 16] = [
    BOAR,
    COBRA,
    CRAB,
    CRANE,
    DRAGON,
    EEL,
    ELEPHANT,
    FROG,
    GOOSE,
    HORSE,
    MANTIS,
    MONKEY,
    OX,
    RABBIT,
    ROOSTER,
    TIGER,
];

/// The letter that stands for each card in the save notation, in catalog
/// order: `B C Q K D E L F G H M X O R U T`.
pub const ALL_CARDS_IDENT: [u8; 16] = [
    66u8, 67u8, 81u8, 75u8, 68u8, 69u8, 76u8, 70u8, 71u8, 72u8, 77u8, 88u8, 79u8, 82u8, 85u8, 84u8,
];

/// The step of `row` rows and `col` columns.
pub open spec fn step(row: int, col: int) -> Pos {
    Pos(row as i8, col as i8)
}

/// The step that undoes `offset`: the same step seen from the other side of
/// the board.
pub open spec fn mirrored(offset: Pos) -> Pos {
    step(-offset.0, -offset.1)
}

impl Card {
    /// The card's offsets for red, in the order the card lists them.
    pub open spec fn offsets_spec(self) -> Seq<Pos> {
        match self {
            Card::Boar => seq![step(-1, 0), step(0, -1), step(0, 1)],
            Card::Cobra => seq![step(0, -1), step(-1, 1), step(1, 1)],
            Card::Crab => seq![step(0, -2), step(-1, 0), step(0, 2)],
            Card::Crane => seq![step(1, -1), step(-1, 0), step(1, 1)],
            Card::Dragon => seq![step(-1, -2), step(1, -1), step(1, 1), step(-1, 2)],
            Card::Eel => seq![step(-1, -1), step(1, -1), step(0, 1)],
            Card::Elephant => seq![step(-1, -1), step(0, -1), step(-1, 1), step(0, 1)],
            Card::Frog => seq![step(0, -2), step(-1, -1), step(1, 1)],
            Card::Goose => seq![step(-1, -1), step(0, -1), step(0, 1), step(1, 1)],
            Card::Horse => seq![step(0, -1), step(-1, 0), step(1, 0)],
            Card::Mantis => seq![step(-1, -1), step(1, 0), step(-1, 1)],
            Card::Monkey => seq![step(-1, -1), step(1, -1), step(-1, 1), step(1, 1)],
            Card::Ox => seq![step(-1, 0), step(1, 0), step(0, 1)],
            Card::Rabbit => seq![step(1, -1), step(-1, 1), step(0, 2)],
            Card::Rooster => seq![step(0, -1), step(1, -1), step(-1, 1), step(0, 1)],
            Card::Tiger => seq![step(-2, 0), step(1, 0)],
        }
    }

    /// The card's offsets for blue: each of red's, mirrored, in the same order.
    pub open spec fn rev_offsets_spec(self) -> Seq<Pos> {
        Seq::new(self.offsets_spec().len(), |i: int| mirrored(self.offsets_spec()[i]))
    }

    /// The card's place in the catalog.
    pub open spec fn index_spec(self) -> int {
        match self {
            Card::Boar => 0,
            Card::Cobra => 1,
            Card::Crab => 2,
            Card::Crane => 3,
            Card::Dragon => 4,
            Card::Eel => 5,
            Card::Elephant => 6,
            Card::Frog => 7,
            Card::Goose => 8,
            Card::Horse => 9,
            Card::Mantis => 10,
            Card::Monkey => 11,
            Card::Ox => 12,
            Card::Rabbit => 13,
            Card::Rooster => 14,
            Card::Tiger => 15,
        }
    }

    /// The card's letter in the save notation.
    pub open spec fn identifier_spec(self) -> u8 {
        ALL_CARDS_IDENT@[self.index_spec()]
    }

    /// The card's offsets for red.
    pub fn offsets(&self) -> (r: &'static [Pos])
        ensures
            r@ == self.offsets_spec(),
            1 <= r@.len() <= LARGEST_CARD,
    {
        let r: &'static [Pos] = match self {
            Card::Boar => &[Pos(-1, 0), Pos(0, -1), Pos(0, 1)],
            Card::Cobra => &[Pos(0, -1), Pos(-1, 1), Pos(1, 1)],
            Card::Crab => &[Pos(0, -2), Pos(-1, 0), Pos(0, 2)],
            Card::Crane => &[Pos(1, -1), Pos(-1, 0), Pos(1, 1)],
            Card::Dragon => &[Pos(-1, -2), Pos(1, -1), Pos(1, 1), Pos(-1, 2)],
            Card::Eel => &[Pos(-1, -1), Pos(1, -1), Pos(0, 1)],
            Card::Elephant => &[Pos(-1, -1), Pos(0, -1), Pos(-1, 1), Pos(0, 1)],
            Card::Frog => &[Pos(0, -2), Pos(-1, -1), Pos(1, 1)],
            Card::Goose => &[Pos(-1, -1), Pos(0, -1), Pos(0, 1), Pos(1, 1)],
            Card::Horse => &[Pos(0, -1), Pos(-1, 0), Pos(1, 0)],
            Card::Mantis => &[Pos(-1, -1), Pos(1, 0), Pos(-1, 1)],
            Card::Monkey => &[Pos(-1, -1), Pos(1, -1), Pos(-1, 1), Pos(1, 1)],
            Card::Ox => &[Pos(-1, 0), Pos(1, 0), Pos(0, 1)],
            Card::Rabbit => &[Pos(1, -1), Pos(-1, 1), Pos(0, 2)],
            Card::Rooster => &[Pos(0, -1), Pos(1, -1), Pos(-1, 1), Pos(0, 1)],
            Card::Tiger => &[Pos(-2, 0), Pos(1, 0)],
        };
        assert(r@ =~= self.offsets_spec());
        r
    }

    /// The card's offsets for blue: red's, each mirrored.
    pub fn rev_offsets(&self) -> (r: &'static [Pos])
        ensures
            r@ == self.rev_offsets_spec(),
            r@.len() == self.offsets_spec().len(),
    {
        let r: &'static [Pos] = match self {
            Card::Boar => &[Pos(1, 0), Pos(0, 1), Pos(0, -1)],
            Card::Cobra => &[Pos(0, 1), Pos(1, -1), Pos(-1, -1)],
            Card::Crab => &[Pos(0, 2), Pos(1, 0), Pos(0, -2)],
            Card::Crane => &[Pos(-1, 1), Pos(1, 0), Pos(-1, -1)],
            Card::Dragon => &[Pos(1, 2), Pos(-1, 1), Pos(-1, -1), Pos(1, -2)],
            Card::Eel => &[Pos(1, 1), Pos(-1, 1), Pos(0, -1)],
            Card::Elephant => &[Pos(1, 1), Pos(0, 1), Pos(1, -1), Pos(0, -1)],
            Card::Frog => &[Pos(0, 2), Pos(1, 1), Pos(-1, -1)],
            Card::Goose => &[Pos(1, 1), Pos(0, 1), Pos(0, -1), Pos(-1, -1)],
            Card::Horse => &[Pos(0, 1), Pos(1, 0), Pos(-1, 0)],
            Card::Mantis => &[Pos(1, 1), Pos(-1, 0), Pos(1, -1)],
            Card::Monkey => &[Pos(1, 1), Pos(-1, 1), Pos(1, -1), Pos(-1, -1)],
            Card::Ox => &[Pos(1, 0), Pos(-1, 0), Pos(0, -1)],
            Card::Rabbit => &[Pos(-1, 1), Pos(1, -1), Pos(0, -2)],
            Card::Rooster => &[Pos(0, 1), Pos(-1, 1), Pos(1, -1), Pos(0, -1)],
            Card::Tiger => &[Pos(2, 0), Pos(-1, 0)],
        };
        assert(r@ =~= self.rev_offsets_spec());
        r
    }
}

/// No card steps further than two squares along either axis, for either
/// player.
pub proof fn lemma_steps_are_short(card: Card)
    ensures
        forall|i: int|
            0 <= i < card.offsets_spec().len() ==> {
                &&& -2 <= (#[trigger] card.offsets_spec()[i]).0 <= 2
                &&& -2 <= card.offsets_spec()[i].1 <= 2
            },
        forall|i: int|
            0 <= i < card.rev_offsets_spec().len() ==> {
                &&& -2 <= (#[trigger] card.rev_offsets_spec()[i]).0 <= 2
                &&& -2 <= card.rev_offsets_spec()[i].1 <= 2
            },
{
}

/// The place of `card` in [`ALL_CARDS`].
pub fn index_of_card(card: &Card) -> (i: usize)
    ensures
        i == card.index_spec(),
        i < 16,
        ALL_CARDS@[i as int] == *card,
{
    match card {
        Card::Boar => 0,
        Card::Cobra => 1,
        Card::Crab => 2,
        Card::Crane => 3,
        Card::Dragon => 4,
        Card::Eel => 5,
        Card::Elephant => 6,
        Card::Frog => 7,
        Card::Goose => 8,
        Card::Horse => 9,
        Card::Mantis => 10,
        Card::Monkey => 11,
        Card::Ox => 12,
        Card::Rabbit => 13,
        Card::Rooster => 14,
        Card::Tiger => 15,
    }
}

/// The letter under which `card` is saved and loaded.
pub fn card_identifier(card: &Card) -> (b: u8)
    ensures
        b == card.identifier_spec(),
{
    ALL_CARDS_IDENT[index_of_card(card)]
}

/// Whether no card occurs twice in `cards`.
pub open spec fn all_distinct(cards: Seq<Card>) -> bool {
    forall|i: int, j: int| 0 <= i < j < cards.len() ==> cards[i] != cards[j]
}

/// The catalog with the first `n` of `picks` drawn from it: each pick names a
/// place in what the picks before it have left.
pub open spec fn deck_after(picks: Seq<usize>, n: int) -> Seq<Card>
    decreases n,
{
    if n <= 0 {
        ALL_CARDS@
    } else {
        deck_after(picks, n - 1).remove(picks[n - 1] as int)
    }
}

/// The five cards that `picks` draw from the catalog, in the order drawn.
pub open spec fn drawn(picks: Seq<usize>) -> Seq<Card> {
    Seq::new(5, |i: int| deck_after(picks, i)[picks[i] as int])
}

/// Draws five cards from the catalog without putting any back: pick `i`
/// names a place among the `16 - i` cards that are left.
pub fn draw_cards(picks: [usize; 5]) -> (cards: [Card; 5])
    requires
        forall|i: int| 0 <= i < 5 ==> picks@[i] < 16 - i,
    ensures
        cards@ == drawn(picks@),
        all_distinct(cards@),
{
    let mut deck: Vec<Card> = Vec::with_capacity(16);
    let mut k: usize = 0;
    while k < 16
        invariant
            k <= 16,
            deck@ == ALL_CARDS@.take(k as int),
        decreases 16 - k,
    {
        deck.push(ALL_CARDS[k]);
        k += 1;
    }
    assert(deck@ == ALL_CARDS@);
    let mut cards: [Card; 5] = [BOAR; 5];
    let mut i: usize = 0;
    while i < 5
        invariant
            i <= 5,
            forall|j: int| 0 <= j < 5 ==> picks@[j] < 16 - j,
            deck@ == deck_after(picks@, i as int),
            deck@.len() == 16 - i,
            forall|a: int, b: int| 0 <= a < b < deck@.len() ==> deck@[a] != deck@[b],
            forall|j: int, a: int| 0 <= j < i && 0 <= a < deck@.len() ==> cards@[j] != deck@[a],
            forall|j: int, l: int| 0 <= j < l < i ==> cards@[j] != cards@[l],
            forall|j: int| 0 <= j < i ==> cards@[j] == drawn(picks@)[j],
        decreases 5 - i,
    {
        let card = deck.remove(picks[i]);
        cards[i] = card;
        i += 1;
    }
    assert(cards@ =~= drawn(picks@));
    cards
}

/// Five different cards, drawn at random from the catalog without putting
/// any back. The generator is seeded from the clock.
pub fn random_cards() -> (cards: [Card; 5])
    ensures
        all_distinct(cards@),
        exists|picks: Seq<usize>| cards@ == #[trigger] drawn(picks),
{
    let mut rng = seeded(clock_seed());
    let first = next_in_range(&mut rng, 0, 16);
    let second = next_in_range(&mut rng, 0, 15);
    let third = next_in_range(&mut rng, 0, 14);
    let fourth = next_in_range(&mut rng, 0, 13);
    let fifth = next_in_range(&mut rng, 0, 12);
    draw_cards([first, second, third, fourth, fifth])
}

} // verus!
