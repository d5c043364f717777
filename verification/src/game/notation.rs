//! The save notation.
//!
//! A saved game is text. A `#` starts a comment that runs to the end of its
//! line, and outside comments only letters, digits and `.` count. What counts
//! is read as: an optional layout of 25 symbols (`.` for an empty square, `0`
//! to `3` for a red disciple, a blue disciple, a red sensei, a blue sensei),
//! row by row; the letters of five different cards (red's two, blue's two,
//! the transfer card); then three letters for each move played: its card, its
//! start square and its end square, squares being lettered `a` to `y` in
//! row-major order. Letters are read in either case. The letter `z` names
//! the place behind the last square: a move from or to it is read, and is
//! illegal.

use crate::cards::{all_distinct, Card, ALL_CARDS};
use crate::game::rules::{standard_squares, BoardState};
use crate::game::{GameMove, LoadGameError, Piece, Pos};
use vstd::prelude::*;

verus! {

pub const LINE_FEED: u8 = 10;

pub const SPACE: u8 = 32;

/// `#`, which starts a comment.
pub const HASH: u8 = 35;

/// `.`, an empty square.
pub const DOT: u8 = 46;

pub const DIGIT_0: u8 = 48;

pub const DIGIT_1: u8 = 49;

pub const DIGIT_2: u8 = 50;

pub const DIGIT_3: u8 = 51;

pub const DIGIT_9: u8 = 57;

pub const UPPER_A: u8 = 65;

pub const UPPER_Z: u8 = 90;

pub const LOWER_A: u8 = 97;

pub const LOWER_Z: u8 = 122;

pub open spec fn is_digit(byte: u8) -> bool {
    DIGIT_0 <= byte <= DIGIT_9
}

pub open spec fn is_letter(byte: u8) -> bool {
    UPPER_A <= byte <= UPPER_Z || LOWER_A <= byte <= LOWER_Z
}

/// Whether `byte` can stand in a layout: a digit or `.`.
pub open spec fn is_layout_symbol(byte: u8) -> bool {
    is_digit(byte) || byte == DOT
}

/// Whether `byte` counts outside a comment.
pub open spec fn is_significant(byte: u8) -> bool {
    is_layout_symbol(byte) || is_letter(byte)
}

/// Whether a byte that followed `text` would stand in a comment: the last
/// line of `text` holds a `#`.
pub open spec fn in_comment(text: Seq<u8>) -> bool
    decreases text.len(),
{
    if text.len() == 0 {
        false
    } else if text.last() == LINE_FEED {
        false
    } else if text.last() == HASH {
        true
    } else {
        in_comment(text.drop_last())
    }
}

/// The bytes of `text` that count, in order: those outside comments that are
/// letters, digits or `.`.
pub open spec fn significant(text: Seq<u8>) -> Seq<u8>
    decreases text.len(),
{
    if text.len() == 0 {
        Seq::empty()
    } else {
        let earlier = significant(text.drop_last());
        if is_significant(text.last()) && !in_comment(text.drop_last()) {
            earlier.push(text.last())
        } else {
            earlier
        }
    }
}

/// `byte` with a lower-case letter made upper-case.
pub open spec fn upper(byte: u8) -> u8 {
    if LOWER_A <= byte <= LOWER_Z {
        (byte - (LOWER_A - UPPER_A)) as u8
    } else {
        byte
    }
}

/// The card that `byte` stands for, in either case.
pub open spec fn card_of_letter(byte: u8) -> Option<Card> {
    if exists|i: int| 0 <= i < 16 && ALL_CARDS@[i].identifier_spec() == upper(byte) {
        Some(
            ALL_CARDS@[choose|i: int|
                0 <= i < 16 && ALL_CARDS@[i].identifier_spec() == upper(byte)],
        )
    } else {
        None
    }
}

/// The letter of a square: `a` for the first in row-major order.
pub open spec fn letter_of_square(pos: Pos) -> u8
    recommends
        pos.in_bounds_spec(),
{
    (LOWER_A + pos.index_spec()) as u8
}

/// The coordinate that a letter stands for, in either case: the one at the
/// letter's distance from `a` in row-major order. `a` to `y` are the squares
/// of the board; `z` lies off it. A byte that is no letter stands for none.
pub open spec fn square_of_letter(byte: u8) -> Option<Pos> {
    if UPPER_A <= upper(byte) <= UPPER_Z {
        Some(Pos::from_index_spec(upper(byte) - UPPER_A))
    } else {
        None
    }
}

/// The symbol of a square's content in a layout.
pub open spec fn symbol_of_piece(content: Option<Piece>) -> u8 {
    match content {
        None => DOT,
        Some(Piece::RedDisciple) => DIGIT_0,
        Some(Piece::BlueDisciple) => DIGIT_1,
        Some(Piece::RedSensei) => DIGIT_2,
        Some(Piece::BlueSensei) => DIGIT_3,
    }
}

/// What a layout symbol says of its square, if it is one of the five.
pub open spec fn piece_of_symbol(byte: u8) -> Option<Option<Piece>> {
    if byte == DOT {
        Some(None)
    } else if byte == DIGIT_0 {
        Some(Some(Piece::RedDisciple))
    } else if byte == DIGIT_1 {
        Some(Some(Piece::BlueDisciple))
    } else if byte == DIGIT_2 {
        Some(Some(Piece::RedSensei))
    } else if byte == DIGIT_3 {
        Some(Some(Piece::BlueSensei))
    } else {
        None
    }
}

/// The layout that the first 25 bytes of `bytes` spell, if there are 25 and
/// each is one of the five symbols.
pub open spec fn parse_layout(bytes: Seq<u8>) -> Option<Seq<Option<Piece>>> {
    if bytes.len() >= 25 && forall|i: int|
        0 <= i < 25 ==> (#[trigger] piece_of_symbol(bytes[i])) is Some {
        Some(Seq::new(25, |i: int| piece_of_symbol(bytes[i]).unwrap()))
    } else {
        None
    }
}

/// What the first five bytes of `bytes` spell, read as cards.
pub open spec fn spelled_cards(bytes: Seq<u8>) -> Seq<Card> {
    Seq::new(5, |i: int| card_of_letter(bytes[i]).unwrap())
}

/// The five cards that the first five bytes of `bytes` spell, if there are
/// five, each is the letter of a card, and no card comes twice.
pub open spec fn parse_cards(bytes: Seq<u8>) -> Option<Seq<Card>> {
    if bytes.len() >= 5 && (forall|i: int|
        0 <= i < 5 ==> (#[trigger] card_of_letter(bytes[i])) is Some) && all_distinct(
        spelled_cards(bytes),
    ) {
        Some(spelled_cards(bytes))
    } else {
        None
    }
}

/// The state after the first `n` move records of `records` have been played
/// from `start`. The first record that is no card letter and two letters is
/// a malformed history; the first that is not legal where it is played, be
/// it because a letter names no square of the board, is an illegal move.
pub open spec fn replay_records(start: BoardState, records: Seq<u8>, n: int) -> Result<
    BoardState,
    LoadGameError,
>
    decreases n,
{
    if n <= 0 {
        Ok(start)
    } else {
        match replay_records(start, records, n - 1) {
            Err(e) => Err(e),
            Ok(before) => {
                let card = card_of_letter(records[3 * (n - 1)]);
                let from = square_of_letter(records[3 * (n - 1) + 1]);
                let to = square_of_letter(records[3 * (n - 1) + 2]);
                if card is None || from is None || to is None {
                    Err(LoadGameError::MoveHistoryParse)
                } else if !before.position.legal(card.unwrap(), from.unwrap(), to.unwrap()) {
                    Err(LoadGameError::IllegalMove)
                } else {
                    Ok(
                        before.apply(
                            before.position.move_of(card.unwrap(), from.unwrap(), to.unwrap()),
                        ),
                    )
                }
            },
        }
    }
}

/// The game that `text` saves, or why it saves none.
///
/// Text without a significant byte, or whose card block is short, holds an
/// unknown letter or names a card twice, fails with `CardsParse`. Text that
/// opens with a layout symbol has a layout: one that is short or holds a
/// symbol other than the five fails with `BoardParse`. A move block whose
/// length is no multiple of three, or a record that is no card letter and
/// two letters, fails with `MoveHistoryParse`; a record that is not legal
/// where it is played, a move from or to `z` among them, fails with
/// `IllegalMove`.
pub open spec fn parse(text: Seq<u8>) -> Result<BoardState, LoadGameError> {
    let bytes = significant(text);
    if bytes.len() == 0 {
        Err(LoadGameError::CardsParse)
    } else {
        let explicit = is_layout_symbol(bytes[0]);
        if explicit && parse_layout(bytes) is None {
            Err(LoadGameError::BoardParse)
        } else {
            let squares = if explicit {
                parse_layout(bytes).unwrap()
            } else {
                standard_squares()
            };
            let rest = if explicit {
                bytes.skip(25)
            } else {
                bytes
            };
            match parse_cards(rest) {
                None => Err(LoadGameError::CardsParse),
                Some(cards) => {
                    let records = rest.skip(5);
                    if records.len() % 3 != 0 {
                        Err(LoadGameError::MoveHistoryParse)
                    } else {
                        replay_records(
                            BoardState::start(!explicit, squares, cards),
                            records,
                            records.len() as int / 3,
                        )
                    }
                },
            }
        }
    }
}

/// Where the head of a text reads as an opening and its move block comes
/// in threes, the text saves what playing its records from that opening
/// gives.
pub proof fn lemma_parse_replays(
    text: Seq<u8>,
    explicit: bool,
    squares: Seq<Option<Piece>>,
    cards: Seq<Card>,
    records: Seq<u8>,
)
    requires
        significant(text).len() > 0,
        explicit == is_layout_symbol(significant(text)[0]),
        explicit ==> parse_layout(significant(text)) == Some(squares),
        !explicit ==> squares == standard_squares(),
        parse_cards(
            if explicit {
                significant(text).skip(25)
            } else {
                significant(text)
            },
        ) == Some(cards),
        records == (if explicit {
            significant(text).skip(25)
        } else {
            significant(text)
        }).skip(5),
    ensures
        parse(text) == if records.len() % 3 != 0 {
            Err::<BoardState, LoadGameError>(LoadGameError::MoveHistoryParse)
        } else {
            replay_records(
                BoardState::start(!explicit, squares, cards),
                records,
                records.len() as int / 3,
            )
        },
{
}

/// The 25 symbols of a layout.
pub open spec fn layout_text(squares: Seq<Option<Piece>>) -> Seq<u8> {
    Seq::new(25, |i: int| symbol_of_piece(squares[i]))
}

/// The five letters of a card block.
pub open spec fn cards_text(cards: Seq<Card>) -> Seq<u8> {
    Seq::new(5, |i: int| cards[i].identifier_spec())
}

/// The three letters of a move record.
pub open spec fn record_text(m: GameMove) -> Seq<u8> {
    seq![m.used_card.identifier_spec(), letter_of_square(m.start_pos), letter_of_square(m.end_pos)]
}

/// What separates the blocks of a save when it is written with whitespace:
/// two line feeds.
pub open spec fn block_gap(with_whitespace: bool) -> Seq<u8> {
    if with_whitespace {
        seq![LINE_FEED, LINE_FEED]
    } else {
        Seq::empty()
    }
}

/// The records of `history` in order, each followed by a space when the save
/// is written with whitespace.
pub open spec fn history_text(history: Seq<GameMove>, with_whitespace: bool) -> Seq<u8>
    decreases history.len(),
{
    if history.len() == 0 {
        Seq::empty()
    } else {
        let earlier = history_text(history.drop_last(), with_whitespace) + record_text(
            history.last(),
        );
        if with_whitespace {
            earlier.push(SPACE)
        } else {
            earlier
        }
    }
}

/// The bytes that save `state`: the layout unless the game began from the
/// standard one, the cards the game began with, and the moves played.
pub open spec fn save_text(state: BoardState, with_whitespace: bool) -> Seq<u8> {
    let layout = if state.default_start {
        Seq::empty()
    } else {
        layout_text(state.initial_squares)
    };
    layout + block_gap(with_whitespace) + cards_text(state.initial_cards) + block_gap(
        with_whitespace,
    ) + history_text(state.history, with_whitespace)
}

/// `bytes` as text, each byte one character.
pub open spec fn as_chars(bytes: Seq<u8>) -> Seq<char> {
    Seq::new(bytes.len(), |i: int| bytes[i] as char)
}

/// Calls `String::push` with `byte` as a character. std documents that it
/// appends the character to the end of the string; a byte below 128 is the
/// character of the same number.
#[verifier::external_body]
pub(crate) fn push_ascii(text: &mut String, byte: u8)
    requires
        byte < 128,
    ensures
        final(text)@ == old(text)@.push(byte as char),
{
    text.push(byte as char)
}

/// `bytes` as a string, each byte one character.
pub fn ascii_string(bytes: &Vec<u8>) -> (text: String)
    requires
        forall|i: int| 0 <= i < bytes@.len() ==> bytes@[i] < 128,
    ensures
        text@ == as_chars(bytes@),
{
    let mut text = String::new();
    let mut i: usize = 0;
    while i < bytes.len()
        invariant
            i <= bytes@.len(),
            forall|k: int| 0 <= k < bytes@.len() ==> bytes@[k] < 128,
            text@ == as_chars(bytes@.take(i as int)),
        decreases bytes.len() - i,
    {
        push_ascii(&mut text, bytes[i]);
        assert(text@ =~= as_chars(bytes@.take(i + 1)));
        i += 1;
    }
    assert(bytes@.take(bytes@.len() as int) == bytes@);
    text
}

/// Whether `byte` can stand in a layout: a digit or `.`.
pub fn is_layout_symbol_byte(byte: u8) -> (b: bool)
    ensures
        b == is_layout_symbol(byte),
{
    (DIGIT_0 <= byte && byte <= DIGIT_9) || byte == DOT
}

fn is_significant_byte(byte: u8) -> (b: bool)
    ensures
        b == is_significant(byte),
{
    is_layout_symbol_byte(byte) || (UPPER_A <= byte && byte <= UPPER_Z) || (LOWER_A <= byte
        && byte <= LOWER_Z)
}

fn to_upper(byte: u8) -> (u: u8)
    ensures
        u == upper(byte),
{
    if LOWER_A <= byte && byte <= LOWER_Z {
        byte - (LOWER_A - UPPER_A)
    } else {
        byte
    }
}

/// The bytes of `text` that count: comments and everything that is no
/// letter, digit or `.` are left out.
pub fn significant_bytes(text: &[u8]) -> (kept: Vec<u8>)
    ensures
        kept@ == significant(text@),
{
    let mut kept: Vec<u8> = Vec::new();
    let mut commented = false;
    let mut i: usize = 0;
    while i < text.len()
        invariant
            i <= text.len(),
            kept@ == significant(text@.take(i as int)),
            commented == in_comment(text@.take(i as int)),
        decreases text.len() - i,
    {
        let byte = text[i];
        proof {
            assert(text@.take(i + 1).drop_last() == text@.take(i as int));
            assert(text@.take(i + 1).last() == byte);
        }
        if byte == LINE_FEED {
            commented = false;
        } else if byte == HASH {
            commented = true;
        } else if !commented && is_significant_byte(byte) {
            kept.push(byte);
        }
        i += 1;
    }
    assert(text@.take(text@.len() as int) == text@);
    kept
}

/// The card that `byte` stands for, in either case.
pub fn decode_card(byte: u8) -> (card: Option<Card>)
    ensures
        card == card_of_letter(byte),
{
    let letter = to_upper(byte);
    let mut i: usize = 0;
    while i < 16
        invariant
            i <= 16,
            letter == upper(byte),
            forall|k: int| 0 <= k < i ==> ALL_CARDS@[k].identifier_spec() != letter,
        decreases 16 - i,
    {
        let card = ALL_CARDS[i];
        if crate::cards::card_identifier(&card) == letter {
            proof {
                lemma_identifiers_differ();
            }
            return Some(card);
        }
        i += 1;
    }
    None
}

/// No two cards share a letter.
pub proof fn lemma_identifiers_differ()
    ensures
        forall|i: int, j: int|
            0 <= i < 16 && 0 <= j < 16 && ALL_CARDS@[i].identifier_spec()
                == ALL_CARDS@[j].identifier_spec() ==> i == j,
        forall|i: int| 0 <= i < 16 ==> (#[trigger] ALL_CARDS@[i]).index_spec() == i,
{
    assert forall|i: int| 0 <= i < 16 implies (#[trigger] ALL_CARDS@[i]).index_spec() == i by {
        if i < 4 {
        } else if i < 8 {
        } else if i < 12 {
        } else {
        }
    }
}

/// The coordinate that a letter stands for, in either case; `None` for a
/// byte that is no letter.
pub fn decode_square(byte: u8) -> (pos: Option<Pos>)
    ensures
        pos == square_of_letter(byte),
{
    let letter = to_upper(byte);
    if UPPER_A <= letter && letter <= UPPER_Z {
        let index: u8 = letter - UPPER_A;
        Some(Pos((index / 5) as i8, (index % 5) as i8))
    } else {
        None
    }
}

/// What a layout symbol says of its square.
pub fn decode_piece(byte: u8) -> (content: Option<Option<Piece>>)
    ensures
        content == piece_of_symbol(byte),
{
    if byte == DOT {
        Some(None)
    } else if byte == DIGIT_0 {
        Some(Some(Piece::RedDisciple))
    } else if byte == DIGIT_1 {
        Some(Some(Piece::BlueDisciple))
    } else if byte == DIGIT_2 {
        Some(Some(Piece::RedSensei))
    } else if byte == DIGIT_3 {
        Some(Some(Piece::BlueSensei))
    } else {
        None
    }
}

/// The symbol of a square's content in a layout.
pub fn encode_piece(content: Option<Piece>) -> (byte: u8)
    ensures
        byte == symbol_of_piece(content),
        byte < 128,
{
    match content {
        None => DOT,
        Some(Piece::RedDisciple) => DIGIT_0,
        Some(Piece::BlueDisciple) => DIGIT_1,
        Some(Piece::RedSensei) => DIGIT_2,
        Some(Piece::BlueSensei) => DIGIT_3,
    }
}

/// The layout that the first 25 of `bytes` spell.
pub fn read_layout(bytes: &Vec<u8>) -> (layout: Option<[Option<Piece>; 25]>)
    ensures
        match layout {
            Some(squares) => parse_layout(bytes@) == Some(squares@),
            None => parse_layout(bytes@) is None,
        },
{
    if bytes.len() < 25 {
        return None;
    }
    let mut squares: [Option<Piece>; 25] = [None; 25];
    let mut i: usize = 0;
    while i < 25
        invariant
            i <= 25,
            bytes@.len() >= 25,
            forall|k: int| 0 <= k < i ==> piece_of_symbol(bytes@[k]) == Some(squares@[k]),
        decreases 25 - i,
    {
        match decode_piece(bytes[i]) {
            Some(content) => {
                squares[i] = content;
            },
            None => {
                return None;
            },
        }
        i += 1;
    }
    assert(squares@ =~= parse_layout(bytes@).unwrap());
    Some(squares)
}

/// The five cards that `bytes` spell from place `from` on.
pub fn read_cards(bytes: &Vec<u8>, from: usize) -> (block: Option<[Card; 5]>)
    requires
        from <= bytes@.len(),
    ensures
        match block {
            Some(cards) => parse_cards(bytes@.skip(from as int)) == Some(cards@),
            None => parse_cards(bytes@.skip(from as int)) is None,
        },
{
    let ghost rest = bytes@.skip(from as int);
    let len = bytes.len();
    if len - from < 5 {
        return None;
    }
    let mut cards: [Card; 5] = [ALL_CARDS[0]; 5];
    let mut i: usize = 0;
    while i < 5
        invariant
            i <= 5,
            rest == bytes@.skip(from as int),
            len == bytes@.len(),
            from + 5 <= len,
            forall|k: int| 0 <= k < i ==> card_of_letter(rest[k]) == Some(cards@[k]),
        decreases 5 - i,
    {
        assert(rest[i as int] == bytes@[from + i]);
        match decode_card(bytes[from + i]) {
            Some(card) => {
                cards[i] = card;
            },
            None => {
                assert(card_of_letter(rest[i as int]) is None);
                return None;
            },
        }
        i += 1;
    }
    let ghost spelled = spelled_cards(rest);
    assert(cards@ =~= spelled);
    let mut a: usize = 0;
    while a < 5
        invariant
            a <= 5,
            cards@ == spelled,
            spelled == spelled_cards(bytes@.skip(from as int)),
            forall|x: int, y: int| 0 <= x < a && x < y < 5 ==> cards@[x] != cards@[y],
        decreases 5 - a,
    {
        let mut b: usize = a + 1;
        while b < 5
            invariant
                a < b <= 5,
                cards@ == spelled,
                spelled == spelled_cards(bytes@.skip(from as int)),
                forall|y: int| a < y < b ==> cards@[a as int] != cards@[y],
            decreases 5 - b,
        {
            if cards[a] == cards[b] {
                assert(spelled[a as int] == spelled[b as int]);
                return None;
            }
            b += 1;
        }
        a += 1;
    }
    Some(cards)
}

} // verus!
