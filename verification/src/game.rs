//! The board, its pieces and the moves that change it.

use crate::cards;
use crate::cards::{
    all_distinct, lemma_steps_are_short, step, Card, BOAR, COBRA, CRAB, CRANE, DRAGON,
    LARGEST_CARD,
};
use crate::game::hashing::{digest_of, fingerprint, position_hash};
use crate::game::laws::{
    lemma_cards_conserved, lemma_legal_move_keeps_reachable, lemma_legal_moves_sound,
};
use crate::game::notation::{
    as_chars, ascii_string, block_gap, cards_text, decode_card, decode_square, encode_piece,
    history_text, is_layout_symbol, is_layout_symbol_byte, layout_text, lemma_parse_replays,
    parse, parse_cards, parse_layout,
    read_cards, read_layout, record_text, replay_records, save_text, significant_bytes,
    LINE_FEED, LOWER_A, SPACE,
};
use crate::game::round_trip::lemma_loaded_is_reachable;
use crate::game::rules::{standard_cards, standard_squares, BoardState, Position};
use vstd::prelude::*;
use vstd::std_specs::cmp::PartialEqSpecImpl;
use vstd::utf8::encode_utf8;

pub mod hashing;
pub mod laws;
pub mod notation;
pub mod round_trip;
pub mod rules;

verus! {

/// A piece: its colour and its rank.
#[derive(Clone, Copy, PartialEq, Eq, Debug, Hash, Structural)]
pub enum Piece {
    RedDisciple,
    RedSensei,
    BlueDisciple,
    BlueSensei,
}

impl Piece {
    /// Whether the piece is red's.
    pub open spec fn is_red_spec(self) -> bool {
        self == Piece::RedDisciple || self == Piece::RedSensei
    }

    /// Whether the piece is red's.
    pub fn is_red(&self) -> (b: bool)
        ensures
            b == self.is_red_spec(),
    {
        matches!(self, Piece::RedDisciple | Piece::RedSensei)
    }
}

/// Whether a game is still being played, and how it ended if not.
#[derive(Clone, Copy, PartialEq, Eq, Debug, Hash, Structural)]
pub enum GameStatus {
    Playing,
    RedWon,
    BlueWon,
    Stalemate,
}

/// Why a saved game could not be loaded.
#[derive(Clone, Copy, PartialEq, Eq, Debug, Hash, Structural)]
pub enum LoadGameError {
    /// The text opens with a layout, and the layout is short or holds a
    /// symbol that stands for nothing.
    BoardParse,
    /// The five cards are missing, short, unknown or not all different.
    CardsParse,
    /// The moves do not come in records of a card letter and two letters.
    MoveHistoryParse,
    /// A recorded move is not legal where it is played; one that starts or
    /// ends off the board is not.
    IllegalMove,
}

impl LoadGameError {
    /// What went wrong, in words.
    pub open spec fn message_spec(self) -> Seq<char> {
        match self {
            LoadGameError::BoardParse => "board state was expected but failed to parse"@,
            LoadGameError::CardsParse => "failed to parse cards"@,
            LoadGameError::MoveHistoryParse => "failed to parse move history"@,
            LoadGameError::IllegalMove => "illegal move in move history"@,
        }
    }

    /// What went wrong, in words.
    pub fn to_string(&self) -> (message: String)
        ensures
            message@ == self.message_spec(),
    {
        match self {
            LoadGameError::BoardParse => "board state was expected but failed to parse".to_owned(),
            LoadGameError::CardsParse => "failed to parse cards".to_owned(),
            LoadGameError::MoveHistoryParse => "failed to parse move history".to_owned(),
            LoadGameError::IllegalMove => "illegal move in move history".to_owned(),
        }
    }
}

/// One move, with all that is needed to play it and to take it back.
#[derive(Clone, Copy, PartialEq, Eq, Debug, Hash, Structural)]
pub struct GameMove {
    pub start_pos: Pos,
    pub end_pos: Pos,
    pub used_card: Card,
    /// The transfer card that the mover received for `used_card`.
    pub transferred_card: Card,
    pub moved_piece: Piece,
    pub captured_piece: Option<Piece>,
}

impl GameMove {
    /// Whether the move starts and ends on the board.
    pub open spec fn on_board(self) -> bool {
        self.start_pos.in_bounds_spec() && self.end_pos.in_bounds_spec()
    }

    /// The move as the save notation records it: the letter of its card, of
    /// its start square and of its end square.
    pub fn as_encoded_bytes(&self) -> (bytes: [u8; 3])
        requires
            self.on_board(),
        ensures
            bytes@ == record_text(*self),
            forall|i: int| 0 <= i < 3 ==> bytes@[i] < 128,
    {
        let bytes = [
            cards::card_identifier(&self.used_card),
            pos_index_to_alphabet(self.start_pos.to_index()),
            pos_index_to_alphabet(self.end_pos.to_index()),
        ];
        assert(bytes@ =~= record_text(*self));
        bytes
    }
}

/// The letter of the square at place `idx` in row-major order.
fn pos_index_to_alphabet(idx: usize) -> (letter: u8)
    requires
        idx < 25,
    ensures
        letter == LOWER_A + idx,
{
    LOWER_A + idx as u8
}

/// A square of the board, or a step between two squares, as `(row, col)`.
/// Row 0 is blue's home row, row 4 red's.
#[derive(Clone, Copy, PartialEq, Eq, Debug, Hash, Structural)]
pub struct Pos(pub i8, pub i8);

impl Pos {
    /// Whether the coordinate names one of the 25 squares.
    pub open spec fn in_bounds_spec(self) -> bool {
        0 <= self.0 < 5 && 0 <= self.1 < 5
    }

    /// The square's place in row-major order.
    pub open spec fn index_spec(self) -> int {
        self.0 * 5 + self.1
    }

    /// The square at place `idx` in row-major order.
    pub open spec fn from_index_spec(idx: int) -> Pos {
        Pos((idx / 5) as i8, (idx % 5) as i8)
    }

    /// The coordinate reached from `self` by the step `offset`.
    pub open spec fn offset_spec(self, offset: Pos) -> Pos {
        Pos((self.0 + offset.0) as i8, (self.1 + offset.1) as i8)
    }

    /// The place of a square of the board in row-major order.
    pub fn to_index(self) -> (idx: usize)
        requires
            self.in_bounds_spec(),
        ensures
            idx == self.index_spec(),
            idx < 25,
    {
        (self.0 * 5 + self.1) as usize
    }

    /// The square at place `idx` in row-major order.
    pub fn from_index(idx: usize) -> (pos: Pos)
        requires
            idx < 25,
        ensures
            pos == Pos::from_index_spec(idx as int),
            pos.in_bounds_spec(),
            pos.index_spec() == idx,
    {
        Pos((idx / 5) as i8, (idx % 5) as i8)
    }

    /// The coordinate reached by the step `offset`, on the board or off it.
    pub fn offset(&self, offset: &Pos) -> (pos: Pos)
        requires
            i8::MIN <= self.0 + offset.0 <= i8::MAX,
            i8::MIN <= self.1 + offset.1 <= i8::MAX,
        ensures
            pos == self.offset_spec(*offset),
    {
        Pos(self.0 + offset.0, self.1 + offset.1)
    }

    /// Whether the coordinate names one of the 25 squares.
    pub fn in_bounds(&self) -> (b: bool)
        ensures
            b == self.in_bounds_spec(),
    {
        self.0 >= 0 && self.0 < 5 && self.1 >= 0 && self.1 < 5
    }
}

/// A game in progress: the position, the moves that led to it, and the
/// layout and cards it began with.
#[derive(Debug, Hash)]
pub struct Board {
    squares: [Option<Piece>; 25],
    red_to_move: bool,
    red_cards: (Card, Card),
    blue_cards: (Card, Card),
    transfer_card: Card,
    winner: Option<bool>,
    move_history: Vec<GameMove>,
    default_start: bool,
    initial_squares: [Option<Piece>; 25],
    initial_cards: [Card; 5],
}

impl View for Board {
    type V = BoardState;

    closed spec fn view(&self) -> BoardState {
        BoardState {
            position: Position {
                squares: self.squares@,
                red_to_move: self.red_to_move,
                red_cards: self.red_cards,
                blue_cards: self.blue_cards,
                transfer_card: self.transfer_card,
                winner: self.winner,
            },
            history: self.move_history@,
            default_start: self.default_start,
            initial_squares: self.initial_squares@,
            initial_cards: self.initial_cards@,
        }
    }
}

impl Clone for Board {
    fn clone(&self) -> (board: Board)
        ensures
            board@ == self@,
    {
        proof {
            use_type_invariant(self);
        }
        let mut move_history: Vec<GameMove> = Vec::with_capacity(self.move_history.len());
        let mut i: usize = 0;
        while i < self.move_history.len()
            invariant
                i <= self.move_history.len(),
                move_history@ == self.move_history@.take(i as int),
            decreases self.move_history.len() - i,
        {
            move_history.push(self.move_history[i]);
            i += 1;
        }
        assert(move_history@ == self.move_history@);
        Board {
            squares: self.squares,
            red_to_move: self.red_to_move,
            red_cards: self.red_cards,
            blue_cards: self.blue_cards,
            transfer_card: self.transfer_card,
            winner: self.winner,
            move_history,
            default_start: self.default_start,
            initial_squares: self.initial_squares,
            initial_cards: self.initial_cards,
        }
    }
}

impl PartialEq for Board {
    /// Two boards are equal when they agree in every part: squares, turn,
    /// cards, winner, history and opening.
    fn eq(&self, other: &Board) -> (equal: bool) {
        if self.red_to_move != other.red_to_move || self.default_start != other.default_start
            || self.winner != other.winner {
            return false;
        }
        if self.red_cards.0 != other.red_cards.0 || self.red_cards.1 != other.red_cards.1
            || self.blue_cards.0 != other.blue_cards.0 || self.blue_cards.1
            != other.blue_cards.1 || self.transfer_card != other.transfer_card {
            return false;
        }
        let mut i: usize = 0;
        while i < 25
            invariant
                i <= 25,
                forall|k: int|
                    0 <= k < i ==> self.squares@[k] == other.squares@[k]
                        && self.initial_squares@[k] == other.initial_squares@[k],
            decreases 25 - i,
        {
            if self.squares[i] != other.squares[i] || self.initial_squares[i]
                != other.initial_squares[i] {
                return false;
            }
            i += 1;
        }
        let mut c: usize = 0;
        while c < 5
            invariant
                c <= 5,
                forall|k: int| 0 <= k < c ==> self.initial_cards@[k] == other.initial_cards@[k],
            decreases 5 - c,
        {
            if self.initial_cards[c] != other.initial_cards[c] {
                return false;
            }
            c += 1;
        }
        if self.move_history.len() != other.move_history.len() {
            return false;
        }
        let mut m: usize = 0;
        while m < self.move_history.len()
            invariant
                m <= self.move_history@.len(),
                self.move_history@.len() == other.move_history@.len(),
                forall|k: int| 0 <= k < m ==> self.move_history@[k] == other.move_history@[k],
            decreases self.move_history.len() - m,
        {
            if self.move_history[m] != other.move_history[m] {
                return false;
            }
            m += 1;
        }
        assert(self.squares@ =~= other.squares@);
        assert(self.initial_squares@ =~= other.initial_squares@);
        assert(self.initial_cards@ =~= other.initial_cards@);
        assert(self.move_history@ =~= other.move_history@);
        true
    }
}

impl PartialEqSpecImpl for Board {
    open spec fn obeys_eq_spec() -> bool {
        true
    }

    open spec fn eq_spec(&self, other: &Board) -> bool {
        self@ == other@
    }
}

impl Default for Board {
    /// The standard layout with the first five cards of the catalog: Boar and
    /// Cobra for red, Crab and Crane for blue, Dragon in between.
    fn default() -> (board: Board)
        ensures
            board@ == BoardState::start(true, standard_squares(), standard_cards()),
            board@.reachable(),
    {
        let initial_cards: [Card; 5] = [BOAR, COBRA, CRAB, CRANE, DRAGON];
        assert(initial_cards@ =~= standard_cards());
        Board::new_game(true, Board::default_squares(), initial_cards)
    }
}

impl Board {
    /// The standard layout with five different cards drawn at random: the
    /// first two for red, the next two for blue, the last in between.
    pub fn random_cards() -> (board: Board)
        ensures
            board@ == BoardState::start(true, standard_squares(), board@.initial_cards),
            all_distinct(board@.initial_cards),
            board@.reachable(),
    {
        Board::new_game(true, Board::default_squares(), cards::random_cards())
    }

    #[verifier::type_invariant]
    spec fn history_on_board(self) -> bool {
        forall|i: int|
            0 <= i < self.move_history@.len() ==> (#[trigger] self.move_history@[i]).on_board()
    }

    fn default_squares() -> (squares: [Option<Piece>; 25])
        ensures
            squares@ == standard_squares(),
    {
        let squares = [
            Some(Piece::BlueDisciple),
            Some(Piece::BlueDisciple),
            Some(Piece::BlueSensei),
            Some(Piece::BlueDisciple),
            Some(Piece::BlueDisciple),
            None,
            None,
            None,
            None,
            None,
            None,
            None,
            None,
            None,
            None,
            None,
            None,
            None,
            None,
            None,
            Some(Piece::RedDisciple),
            Some(Piece::RedDisciple),
            Some(Piece::RedSensei),
            Some(Piece::RedDisciple),
            Some(Piece::RedDisciple),
        ];
        assert(squares@ =~= standard_squares());
        squares
    }

    fn new_game(default_start: bool, squares: [Option<Piece>; 25], cards: [Card; 5]) -> (board:
        Board)
        ensures
            board@ == BoardState::start(default_start, squares@, cards@),
    {
        Board {
            squares,
            red_to_move: true,
            red_cards: (cards[0], cards[1]),
            blue_cards: (cards[2], cards[3]),
            transfer_card: cards[4],
            winner: None,
            move_history: Vec::with_capacity(20),
            default_start,
            initial_squares: squares,
            initial_cards: cards,
        }
    }

    /// Plays `game_move` without asking whether it is legal: moves the piece,
    /// records a win, hands the cards round, passes the turn and adds the
    /// move to the history.
    pub fn make_move_unchecked(&mut self, game_move: GameMove)
        requires
            game_move.on_board(),
        ensures
            final(self)@ == old(self)@.apply(game_move),
            final(self)@.wf(),
            old(self)@.reachable() && old(self)@.position.is_legal_move(game_move)
                ==> final(self)@.reachable(),
    {
        proof {
            use_type_invariant(&*self);
            if old(self)@.reachable() && old(self)@.position.is_legal_move(game_move) {
                lemma_legal_move_keeps_reachable(old(self)@, game_move);
            }
        }
        self.winner = self.winner_after(game_move);
        if self.red_cards.0 == game_move.used_card {
            self.red_cards.0 = self.transfer_card;
        } else if self.red_cards.1 == game_move.used_card {
            self.red_cards.1 = self.transfer_card;
        } else if self.blue_cards.0 == game_move.used_card {
            self.blue_cards.0 = self.transfer_card;
        } else if self.blue_cards.1 == game_move.used_card {
            self.blue_cards.1 = self.transfer_card;
        }
        self.transfer_card = game_move.used_card;
        self.red_to_move = !self.red_to_move;
        self.squares[game_move.start_pos.to_index()] = None;
        self.squares[game_move.end_pos.to_index()] = Some(game_move.moved_piece);
        self.record(game_move);
    }

    /// Adds `game_move` to the end of the history.
    fn record(&mut self, game_move: GameMove)
        requires
            game_move.on_board(),
        ensures
            final(self)@ == (BoardState {
                history: old(self)@.history.push(game_move),
                ..old(self)@
            }),
    {
        proof {
            use_type_invariant(&*self);
        }
        let mut history: Vec<GameMove> = Vec::new();
        std::mem::swap(&mut self.move_history, &mut history);
        history.push(game_move);
        std::mem::swap(&mut self.move_history, &mut history);
    }

    /// Removes the last move from the history and returns it.
    fn unrecord(&mut self) -> (last: GameMove)
        requires
            old(self)@.history.len() > 0,
        ensures
            last == old(self)@.history.last(),
            last.on_board(),
            final(self)@ == (BoardState {
                history: old(self)@.history.drop_last(),
                ..old(self)@
            }),
    {
        proof {
            use_type_invariant(&*self);
        }
        let mut history: Vec<GameMove> = Vec::new();
        std::mem::swap(&mut self.move_history, &mut history);
        let last = history.pop().unwrap();
        std::mem::swap(&mut self.move_history, &mut history);
        last
    }

    /// The winner once `game_move` has been played: a sensei that reaches
    /// the other side's home square wins, else the capture of a sensei
    /// decides, else nothing changes.
    fn winner_after(&self, game_move: GameMove) -> (winner: Option<bool>)
        requires
            game_move.on_board(),
        ensures
            winner == self@.position.winner_after(game_move),
    {
        if game_move.moved_piece == Piece::RedSensei && game_move.end_pos == Pos(0, 2) {
            Some(true)
        } else if game_move.moved_piece == Piece::BlueSensei && game_move.end_pos == Pos(4, 2) {
            Some(false)
        } else {
            match self.squares[game_move.end_pos.to_index()] {
                Some(Piece::RedSensei) => Some(false),
                Some(Piece::BlueSensei) => Some(true),
                _ => self.winner,
            }
        }
    }

    /// Whether the player to move has a legal move after which a winner is
    /// recorded.
    pub fn one_move_from_winning(&self) -> (winning: bool)
        ensures
            winning == self@.position.wins_at_once(),
    {
        let legal_moves = self.legal_moves();
        let mut i: usize = 0;
        while i < legal_moves.len()
            invariant
                i <= legal_moves@.len(),
                legal_moves@ == self@.position.legal_moves(),
                forall|k: int|
                    0 <= k < i ==> (#[trigger] self@.position.winner_after(legal_moves@[k]))
                        is None,
            decreases legal_moves.len() - i,
        {
            proof {
                lemma_legal_moves_sound(self@.position, i as int);
            }
            if self.winner_after(legal_moves[i]).is_some() {
                return true;
            }
            i += 1;
        }
        false
    }

    /// Takes the last move back.
    pub fn undo_move(&mut self)
        requires
            old(self)@.history.len() > 0,
        ensures
            final(self)@ == old(self)@.undo(),
            final(self)@.wf(),
    {
        proof {
            use_type_invariant(&*self);
        }
        let last_move = self.unrecord();
        self.winner = None;
        self.red_to_move = !self.red_to_move;
        self.squares[last_move.start_pos.to_index()] = Some(last_move.moved_piece);
        self.squares[last_move.end_pos.to_index()] = last_move.captured_piece;
        self.transfer_card = last_move.transferred_card;
        if self.red_cards.0 == last_move.transferred_card {
            self.red_cards.0 = last_move.used_card;
        } else if self.red_cards.1 == last_move.transferred_card {
            self.red_cards.1 = last_move.used_card;
        } else if self.blue_cards.0 == last_move.transferred_card {
            self.blue_cards.0 = last_move.used_card;
        } else if self.blue_cards.1 == last_move.transferred_card {
            self.blue_cards.1 = last_move.used_card;
        }
    }

    /// `Some(true)` once red has won, `Some(false)` once blue has.
    pub fn winner(&self) -> (winner: Option<bool>)
        ensures
            winner == self@.position.winner,
            self@.wf(),
    {
        proof {
            use_type_invariant(self);
        }
        self.winner
    }

    /// The 25 squares in row-major order.
    pub fn squares(&self) -> (squares: &[Option<Piece>; 25])
        ensures
            squares@ == self@.position.squares,
            self@.wf(),
    {
        proof {
            use_type_invariant(self);
        }
        &self.squares
    }

    /// The five cards in play: red's two, blue's two, the transfer card.
    pub fn cards(&self) -> (cards: [Card; 5])
        ensures
            cards@ == self@.position.cards(),
    {
        let cards = [
            self.red_cards.0,
            self.red_cards.1,
            self.blue_cards.0,
            self.blue_cards.1,
            self.transfer_card,
        ];
        assert(cards@ =~= self@.position.cards());
        cards
    }

    /// Whether the five cards in play are five different cards.
    pub fn cards_distinct(&self) -> (distinct: bool)
        ensures
            distinct == self@.position.cards_distinct(),
    {
        let cards = self.cards();
        let mut a: usize = 0;
        while a < 5
            invariant
                a <= 5,
                cards@ == self@.position.cards(),
                forall|x: int, y: int| 0 <= x < a && x < y < 5 ==> cards@[x] != cards@[y],
            decreases 5 - a,
        {
            let mut b: usize = a + 1;
            while b < 5
                invariant
                    a < b <= 5,
                    cards@ == self@.position.cards(),
                    forall|y: int| a < y < b ==> cards@[a as int] != cards@[y],
                decreases 5 - b,
            {
                if cards[a] == cards[b] {
                    return false;
                }
                b += 1;
            }
            a += 1;
        }
        true
    }

    /// Whether red is to move.
    pub fn red_to_move(&self) -> (red: bool)
        ensures
            red == self@.position.red_to_move,
            self@.wf(),
    {
        proof {
            use_type_invariant(self);
        }
        self.red_to_move
    }

    /// The two cards of the player to move.
    fn hand(&self) -> (hand: (Card, Card))
        ensures
            hand == self@.position.hand(),
    {
        if self.red_to_move {
            self.red_cards
        } else {
            self.blue_cards
        }
    }

    /// The steps of `card` for the player to move.
    fn steps(&self, card: Card) -> (steps: &'static [Pos])
        ensures
            steps@ == self@.position.steps(card),
    {
        if self.red_to_move {
            card.offsets()
        } else {
            card.rev_offsets()
        }
    }

    /// Whether `pos` holds a piece of the player to move.
    fn friendly(&self, pos: Pos) -> (b: bool)
        requires
            pos.in_bounds_spec(),
        ensures
            b == self@.position.friendly(pos),
    {
        match self.squares[pos.to_index()] {
            Some(piece) => piece.is_red() == self.red_to_move,
            None => false,
        }
    }

    /// Plays `card` from `start_pos` to `end_pos` if that is legal, and
    /// returns the move; where it is not, returns `None` and leaves the board
    /// as it was.
    pub fn make_move(&mut self, card: Card, start_pos: Pos, end_pos: Pos) -> (played: Option<
        GameMove,
    >)
        ensures
            final(self)@.wf(),
            match played {
                Some(game_move) => {
                    &&& old(self)@.position.legal(card, start_pos, end_pos)
                    &&& game_move == old(self)@.position.move_of(card, start_pos, end_pos)
                    &&& final(self)@ == old(self)@.apply(game_move)
                },
                None => {
                    &&& !old(self)@.position.legal(card, start_pos, end_pos)
                    &&& final(self)@ == old(self)@
                },
            },
            final(self)@.position.card_multiset() == old(self)@.position.card_multiset(),
            old(self)@.reachable() ==> final(self)@.reachable(),
    {
        proof {
            use_type_invariant(&*self);
            let m = old(self)@.position.move_of(card, start_pos, end_pos);
            if old(self)@.position.legal(card, start_pos, end_pos) {
                lemma_cards_conserved(old(self)@.position, m);
                if old(self)@.reachable() {
                    lemma_legal_move_keeps_reachable(old(self)@, m);
                }
            }
        }
        if !start_pos.in_bounds() || !end_pos.in_bounds() {
            return None;
        }
        if !self.friendly(start_pos) || self.friendly(end_pos) {
            return None;
        }
        let offset = Pos(end_pos.0 - start_pos.0, end_pos.1 - start_pos.1);
        assert(offset == step(end_pos.0 - start_pos.0, end_pos.1 - start_pos.1));
        if !contains_step(self.steps(card), offset) {
            return None;
        }
        let hand = self.hand();
        if !(card == hand.0 || card == hand.1) {
            return None;
        }
        let game_move = GameMove {
            start_pos,
            end_pos,
            used_card: card,
            transferred_card: self.transfer_card,
            moved_piece: self.squares[start_pos.to_index()].unwrap(),
            captured_piece: self.squares[end_pos.to_index()],
        };
        self.make_move_unchecked(game_move);
        Some(game_move)
    }

    /// Adds to `moves` the moves that `card` allows the piece on `start_pos`.
    fn push_card_moves(&self, moves: &mut Vec<GameMove>, start_pos: Pos, card: Card)
        requires
            start_pos.in_bounds_spec(),
            self@.position.friendly(start_pos),
        ensures
            final(moves)@ == old(moves)@ + self@.position.step_moves(
                start_pos,
                card,
                self@.position.steps(card),
            ),
    {
        let steps = self.steps(card);
        let moved_piece = self.squares[start_pos.to_index()].unwrap();
        let ghost position = self@.position;
        proof {
            lemma_steps_are_short(card);
        }
        let mut i: usize = 0;
        while i < steps.len()
            invariant
                i <= steps.len(),
                start_pos.in_bounds_spec(),
                position == self@.position,
                steps@ == position.steps(card),
                position.at(start_pos) == Some(moved_piece),
                forall|k: int|
                    0 <= k < steps@.len() ==> -2 <= (#[trigger] steps@[k]).0 <= 2 && -2
                        <= steps@[k].1 <= 2,
                moves@ == old(moves)@ + position.step_moves(start_pos, card, steps@.take(i as int)),
            decreases steps.len() - i,
        {
            let end_pos = start_pos.offset(&steps[i]);
            proof {
                assert(steps@.take(i + 1).drop_last() == steps@.take(i as int));
                assert(steps@.take(i + 1).last() == steps@[i as int]);
            }
            if end_pos.in_bounds() && !self.friendly(end_pos) {
                moves.push(
                    GameMove {
                        start_pos,
                        end_pos,
                        used_card: card,
                        transferred_card: self.transfer_card,
                        moved_piece,
                        captured_piece: self.squares[end_pos.to_index()],
                    },
                );
            }
            i += 1;
        }
        assert(steps@.take(steps@.len() as int) == steps@);
    }

    /// The legal moves of the piece on `start_pos`: none where the square is
    /// off the board, empty, or holds a piece of the player who is not to
    /// move.
    pub fn legal_moves_from_pos(&self, start_pos: Pos) -> (moves: Vec<GameMove>)
        ensures
            moves@ == self@.position.moves_from(start_pos),
    {
        let mut legal_moves: Vec<GameMove> = Vec::with_capacity(2 * LARGEST_CARD);
        if !start_pos.in_bounds() || !self.friendly(start_pos) {
            return legal_moves;
        }
        let hand = self.hand();
        self.push_card_moves(&mut legal_moves, start_pos, hand.0);
        self.push_card_moves(&mut legal_moves, start_pos, hand.1);
        legal_moves
    }

    /// Every legal move of the player to move, by start square in row-major
    /// order.
    pub fn legal_moves(&self) -> (moves: Vec<GameMove>)
        ensures
            moves@ == self@.position.legal_moves(),
            self@.wf(),
    {
        proof {
            use_type_invariant(self);
        }
        let mut legal_moves: Vec<GameMove> = Vec::new();
        let mut i: usize = 0;
        while i < 25
            invariant
                i <= 25,
                legal_moves@ == self@.position.moves_upto(i as int),
            decreases 25 - i,
        {
            let mut from_here = self.legal_moves_from_pos(Pos::from_index(i));
            legal_moves.append(&mut from_here);
            i += 1;
        }
        legal_moves
    }

    /// Whether the game goes on, and how it ended if not.
    pub fn status(&self) -> (status: GameStatus)
        ensures
            status == self@.position.status(),
    {
        match self.winner {
            Some(true) => GameStatus::RedWon,
            Some(false) => GameStatus::BlueWon,
            None => if self.legal_moves().len() == 0 {
                GameStatus::Stalemate
            } else {
                GameStatus::Playing
            },
        }
    }

    /// Whether the game is over: won, or without a move for the player to
    /// move.
    pub fn finished(&self) -> (finished: bool)
        ensures
            finished == self@.position.finished(),
    {
        self.status() != GameStatus::Playing
    }

    /// The squares that hold a red piece, in row-major order.
    pub fn red_positions(&self) -> (positions: Vec<Pos>)
        ensures
            positions@ == self@.position.positions_upto(true, 25),
    {
        self.color_positions(true)
    }

    /// The squares that hold a blue piece, in row-major order.
    pub fn blue_positions(&self) -> (positions: Vec<Pos>)
        ensures
            positions@ == self@.position.positions_upto(false, 25),
    {
        self.color_positions(false)
    }

    /// The squares that hold a piece of the player to move, in row-major
    /// order.
    pub fn piece_positions(&self) -> (positions: Vec<Pos>)
        ensures
            positions@ == self@.position.positions_upto(self@.position.red_to_move, 25),
    {
        self.color_positions(self.red_to_move)
    }

    fn color_positions(&self, red_pieces: bool) -> (positions: Vec<Pos>)
        ensures
            positions@ == self@.position.positions_upto(red_pieces, 25),
    {
        let mut positions: Vec<Pos> = Vec::new();
        let mut i: usize = 0;
        while i < 25
            invariant
                i <= 25,
                positions@ == self@.position.positions_upto(red_pieces, i as int),
            decreases 25 - i,
        {
            match self.squares[i] {
                Some(piece) => {
                    if piece.is_red() == red_pieces {
                        positions.push(Pos::from_index(i));
                    }
                },
                None => {},
            }
            i += 1;
        }
        positions
    }

    /// Every piece on the board with its square, in row-major order.
    pub fn pieces(&self) -> (pieces: Vec<(Piece, Pos)>)
        ensures
            pieces@ == self@.position.pieces_upto(25),
    {
        let mut pieces: Vec<(Piece, Pos)> = Vec::new();
        let mut i: usize = 0;
        while i < 25
            invariant
                i <= 25,
                pieces@ == self@.position.pieces_upto(i as int),
            decreases 25 - i,
        {
            match self.squares[i] {
                Some(piece) => {
                    pieces.push((piece, Pos::from_index(i)));
                },
                None => {},
            }
            i += 1;
        }
        pieces
    }
}

/// Whether `step` is one of `steps`.
fn contains_step(steps: &[Pos], step: Pos) -> (found: bool)
    ensures
        found == steps@.contains(step),
{
    let mut i: usize = 0;
    while i < steps.len()
        invariant
            i <= steps.len(),
            forall|k: int| 0 <= k < i ==> steps@[k] != step,
        decreases steps.len() - i,
    {
        if steps[i] == step {
            return true;
        }
        i += 1;
    }
    false
}

impl Board {
    /// The bytes of the save: see [`Board::save_game`].
    fn save_bytes(&self, with_whitespace: bool) -> (bytes: Vec<u8>)
        ensures
            bytes@ == save_text(self@, with_whitespace),
            forall|i: int| 0 <= i < bytes@.len() ==> bytes@[i] < 128,
    {
        proof {
            use_type_invariant(self);
        }
        let mut bytes: Vec<u8> = Vec::new();
        if !self.default_start {
            let mut i: usize = 0;
            while i < 25
                invariant
                    i <= 25,
                    bytes@ == layout_text(self.initial_squares@).take(i as int),
                    forall|k: int| 0 <= k < bytes@.len() ==> bytes@[k] < 128,
                decreases 25 - i,
            {
                bytes.push(encode_piece(self.initial_squares[i]));
                assert(bytes@ =~= layout_text(self.initial_squares@).take(i + 1));
                i += 1;
            }
            assert(bytes@ =~= layout_text(self.initial_squares@));
        }
        let ghost layout = bytes@;
        if with_whitespace {
            bytes.push(LINE_FEED);
            bytes.push(LINE_FEED);
        }
        assert(bytes@ =~= layout + block_gap(with_whitespace));
        let mut j: usize = 0;
        while j < 5
            invariant
                j <= 5,
                bytes@ == layout + block_gap(with_whitespace) + cards_text(
                    self.initial_cards@,
                ).take(j as int),
                forall|k: int| 0 <= k < bytes@.len() ==> bytes@[k] < 128,
            decreases 5 - j,
        {
            bytes.push(cards::card_identifier(&self.initial_cards[j]));
            assert(bytes@ =~= layout + block_gap(with_whitespace) + cards_text(
                self.initial_cards@,
            ).take(j + 1));
            j += 1;
        }
        assert(cards_text(self.initial_cards@).take(5) =~= cards_text(self.initial_cards@));
        if with_whitespace {
            bytes.push(LINE_FEED);
            bytes.push(LINE_FEED);
        }
        let ghost head = layout + block_gap(with_whitespace) + cards_text(self.initial_cards@)
            + block_gap(with_whitespace);
        assert(bytes@ =~= head);
        let mut m: usize = 0;
        while m < self.move_history.len()
            invariant
                m <= self.move_history@.len(),
                forall|i: int|
                    0 <= i < self.move_history@.len() ==> (
                    #[trigger] self.move_history@[i]).on_board(),
                bytes@ == head + history_text(self.move_history@.take(m as int), with_whitespace),
                forall|k: int| 0 <= k < bytes@.len() ==> bytes@[k] < 128,
            decreases self.move_history.len() - m,
        {
            let record = self.move_history[m].as_encoded_bytes();
            bytes.push(record[0]);
            bytes.push(record[1]);
            bytes.push(record[2]);
            if with_whitespace {
                bytes.push(SPACE);
            }
            proof {
                let upto = self.move_history@.take(m + 1);
                assert(upto.drop_last() == self.move_history@.take(m as int));
                assert(upto.last() == self.move_history@[m as int]);
                assert(bytes@ =~= head + history_text(upto, with_whitespace));
            }
            m += 1;
        }
        assert(self.move_history@.take(self.move_history@.len() as int) == self.move_history@);
        bytes
    }

    /// The game as text in the save notation: the layout unless the game
    /// began from the standard one, the five cards it began with, and the
    /// moves played. With whitespace, two line feeds follow the layout and
    /// the cards, and a space follows each move.
    pub fn save_game(&self, with_whitespace: bool) -> (text: String)
        ensures
            text@ == as_chars(save_text(self@, with_whitespace)),
    {
        let bytes = self.save_bytes(with_whitespace);
        ascii_string(&bytes)
    }

    /// A hash of what both players can see: the squares, the turn, the five
    /// cards and the winner. The history takes no part in it.
    pub fn state_hash(&self) -> (hash: u64)
        ensures
            hash == position_hash(self@.position),
    {
        let mut bytes: Vec<u8> = Vec::with_capacity(32);
        let mut i: usize = 0;
        while i < 25
            invariant
                i <= 25,
                bytes@ == fingerprint(self@.position).take(i as int),
            decreases 25 - i,
        {
            bytes.push(encode_piece(self.squares[i]));
            assert(bytes@ =~= fingerprint(self@.position).take(i + 1));
            i += 1;
        }
        bytes.push(if self.red_to_move { 1 } else { 0 });
        bytes.push(cards::index_of_card(&self.red_cards.0) as u8);
        bytes.push(cards::index_of_card(&self.red_cards.1) as u8);
        bytes.push(cards::index_of_card(&self.blue_cards.0) as u8);
        bytes.push(cards::index_of_card(&self.blue_cards.1) as u8);
        bytes.push(cards::index_of_card(&self.transfer_card) as u8);
        bytes.push(
            match self.winner {
                None => 0,
                Some(true) => 1,
                Some(false) => 2,
            },
        );
        assert(bytes@ =~= fingerprint(self@.position));
        digest_of(&bytes)
    }

    /// Plays the `count` move records that `bytes` holds from place `first`
    /// on, and stops at the first that fails.
    fn replay(&mut self, bytes: &Vec<u8>, first: usize, count: usize) -> (played: Result<
        (),
        LoadGameError,
    >)
        requires
            first + 3 * count == bytes@.len(),
        ensures
            match played {
                Ok(done) => replay_records(old(self)@, bytes@.skip(first as int), count as int)
                    == Ok::<BoardState, LoadGameError>(final(self)@),
                Err(e) => replay_records(old(self)@, bytes@.skip(first as int), count as int)
                    == Err::<BoardState, LoadGameError>(e),
            },
    {
        let ghost start = self@;
        let ghost records = bytes@.skip(first as int);
        let len = bytes.len();
        let mut n: usize = 0;
        while n < count
            invariant
                n <= count,
                len == bytes@.len(),
                first + 3 * count == len,
                start == old(self)@,
                records == bytes@.skip(first as int),
                replay_records(start, records, n as int) == Ok::<BoardState, LoadGameError>(
                    self@,
                ),
            decreases count - n,
        {
            let at = first + 3 * n;
            assert(records[3 * n] == bytes@[at as int]);
            assert(records[3 * n + 1] == bytes@[at + 1]);
            assert(records[3 * n + 2] == bytes@[at + 2]);
            let card = decode_card(bytes[at]);
            let start_pos = decode_square(bytes[at + 1]);
            let end_pos = decode_square(bytes[at + 2]);
            if card.is_none() || start_pos.is_none() || end_pos.is_none() {
                proof {
                    assert(replay_records(start, records, n + 1) == Err::<
                        BoardState,
                        LoadGameError,
                    >(LoadGameError::MoveHistoryParse));
                    lemma_replay_failure_stays(start, records, n + 1, count as int);
                }
                return Err(LoadGameError::MoveHistoryParse);
            }
            if self.make_move(card.unwrap(), start_pos.unwrap(), end_pos.unwrap()).is_none() {
                proof {
                    assert(replay_records(start, records, n + 1) == Err::<
                        BoardState,
                        LoadGameError,
                    >(LoadGameError::IllegalMove));
                    lemma_replay_failure_stays(start, records, n + 1, count as int);
                }
                return Err(LoadGameError::IllegalMove);
            }
            n += 1;
        }
        Ok(())
    }

    /// The game that the head of `bytes` opens, before any move, and the
    /// place in `bytes` where the move block begins.
    fn open_game(bytes: &Vec<u8>) -> (opened: Result<(Board, usize), LoadGameError>)
        requires
            bytes@.len() > 0,
        ensures
            ({
                let explicit = is_layout_symbol(bytes@[0]);
                let rest = if explicit {
                    bytes@.skip(25)
                } else {
                    bytes@
                };
                match opened {
                    Ok((board, first)) => {
                        &&& explicit ==> parse_layout(bytes@) is Some
                        &&& parse_cards(rest) is Some
                        &&& board@ == BoardState::start(
                            !explicit,
                            if explicit {
                                parse_layout(bytes@).unwrap()
                            } else {
                                standard_squares()
                            },
                            parse_cards(rest).unwrap(),
                        )
                        &&& first <= bytes@.len()
                        &&& bytes@.skip(first as int) == rest.skip(5)
                    },
                    Err(e) => if explicit && parse_layout(bytes@) is None {
                        e == LoadGameError::BoardParse
                    } else {
                        e == LoadGameError::CardsParse && parse_cards(rest) is None
                    },
                }
            }),
    {
        let explicit = is_layout_symbol_byte(bytes[0]);
        let squares = if explicit {
            match read_layout(bytes) {
                Some(squares) => squares,
                None => {
                    return Err(LoadGameError::BoardParse);
                },
            }
        } else {
            Board::default_squares()
        };
        let from: usize = if explicit {
            25
        } else {
            0
        };
        let cards = match read_cards(bytes, from) {
            Some(cards) => cards,
            None => {
                proof {
                    if !explicit {
                        assert(bytes@.skip(0) =~= bytes@);
                    }
                }
                return Err(LoadGameError::CardsParse);
            },
        };
        proof {
            if !explicit {
                assert(bytes@.skip(0) =~= bytes@);
            }
            assert(bytes@.skip(from as int).skip(5) =~= bytes@.skip(from + 5));
        }
        Ok((Board::new_game(!explicit, squares, cards), from + 5))
    }

    /// Reads a game in the save notation and plays its moves.
    pub fn load_game(text: &str) -> (loaded: Result<Board, LoadGameError>)
        ensures
            match loaded {
                Ok(board) => parse(encode_utf8(text@)) == Ok::<BoardState, LoadGameError>(board@)
                    && board@.reachable(),
                Err(e) => parse(encode_utf8(text@)) == Err::<BoardState, LoadGameError>(e),
            },
    {
        let bytes = significant_bytes(text.as_bytes());
        let len = bytes.len();
        if len == 0 {
            return Err(LoadGameError::CardsParse);
        }
        let (mut board, first) = match Board::open_game(&bytes) {
            Ok(opened) => opened,
            Err(e) => {
                return Err(e);
            },
        };
        let ghost start = board@;
        let ghost records = bytes@.skip(first as int);
        proof {
            lemma_parse_replays(
                encode_utf8(text@),
                is_layout_symbol(bytes@[0]),
                start.initial_squares,
                start.initial_cards,
                records,
            );
        }
        if (len - first) % 3 != 0 {
            return Err(LoadGameError::MoveHistoryParse);
        }
        let played = board.replay(&bytes, first, (len - first) / 3);
        match played {
            Ok(()) => {},
            Err(e) => {
                return Err(e);
            },
        }
        proof {
            lemma_loaded_is_reachable(encode_utf8(text@));
        }
        Ok(board)
    }
}

/// Once a record has failed, the records after it change nothing.
proof fn lemma_replay_failure_stays(start: BoardState, records: Seq<u8>, failed: int, n: int)
    requires
        failed <= n,
        replay_records(start, records, failed) is Err,
    ensures
        replay_records(start, records, n) == replay_records(start, records, failed),
    decreases n - failed,
{
    if failed < n {
        lemma_replay_failure_stays(start, records, failed, n - 1);
    }
}

} // verus!
