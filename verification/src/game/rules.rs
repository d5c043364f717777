//! The rules of the game as mathematics.
//!
//! A [`Position`] is what the players see: the squares, whose turn it is, the
//! five cards and the winner. A [`BoardState`] is a position together with
//! the record of how it came about. Every contract of [`crate::game::Board`]
//! is stated over these two types.

use crate::cards::{all_distinct, step, Card};
use crate::game::{GameMove, GameStatus, Piece, Pos};
use vstd::multiset::Multiset;
use vstd::prelude::*;

verus! {

/// The standard layout: blue on row 0, red on row 4, each sensei on column 2.
pub open spec fn standard_squares() -> Seq<Option<Piece>> {
    Seq::new(
        25,
        |i: int|
            if i == 2 {
                Some(Piece::BlueSensei)
            } else if i < 5 {
                Some(Piece::BlueDisciple)
            } else if i == 22 {
                Some(Piece::RedSensei)
            } else if i >= 20 {
                Some(Piece::RedDisciple)
            } else {
                None
            },
    )
}

/// How many of the first `n` squares hold `piece`.
pub open spec fn count_upto(squares: Seq<Option<Piece>>, piece: Piece, n: int) -> int
    decreases n,
{
    if n <= 0 {
        0
    } else if squares[n - 1] == Some(piece) {
        count_upto(squares, piece, n - 1) + 1
    } else {
        count_upto(squares, piece, n - 1)
    }
}

/// The cards of a default game: red's two, blue's two, the transfer card.
pub open spec fn standard_cards() -> Seq<Card> {
    seq![Card::Boar, Card::Cobra, Card::Crab, Card::Crane, Card::Dragon]
}

/// What both players can see of a game at one moment.
#[verifier::ext_equal]
pub struct Position {
    /// The 25 squares in row-major order.
    pub squares: Seq<Option<Piece>>,
    pub red_to_move: bool,
    pub red_cards: (Card, Card),
    pub blue_cards: (Card, Card),
    pub transfer_card: Card,
    /// `Some(true)` once red has won, `Some(false)` once blue has.
    pub winner: Option<bool>,
}

impl Position {
    /// Whether the position has its 25 squares.
    pub open spec fn wf(self) -> bool {
        self.squares.len() == 25
    }

    /// How many squares hold `piece`.
    pub open spec fn count(self, piece: Piece) -> int {
        count_upto(self.squares, piece, 25)
    }

    /// The five cards in play: red's, blue's, then the transfer card.
    pub open spec fn cards(self) -> Seq<Card> {
        seq![
            self.red_cards.0,
            self.red_cards.1,
            self.blue_cards.0,
            self.blue_cards.1,
            self.transfer_card,
        ]
    }

    /// The five cards in play, without regard to who holds which.
    pub open spec fn card_multiset(self) -> Multiset<Card> {
        Multiset::empty().insert(self.red_cards.0).insert(self.red_cards.1).insert(
            self.blue_cards.0,
        ).insert(self.blue_cards.1).insert(self.transfer_card)
    }

    /// Whether the five cards in play are five different cards.
    pub open spec fn cards_distinct(self) -> bool {
        all_distinct(self.cards())
    }

    /// What stands on `pos`, a square of the board.
    pub open spec fn at(self, pos: Pos) -> Option<Piece>
        recommends
            pos.in_bounds_spec(),
    {
        self.squares[pos.index_spec()]
    }

    /// Whether `pos` holds a piece of the player to move.
    pub open spec fn friendly(self, pos: Pos) -> bool
        recommends
            pos.in_bounds_spec(),
    {
        self.at(pos) matches Some(piece) && piece.is_red_spec() == self.red_to_move
    }

    /// The two cards of the player to move.
    pub open spec fn hand(self) -> (Card, Card) {
        if self.red_to_move {
            self.red_cards
        } else {
            self.blue_cards
        }
    }

    /// Whether `card` is in the hand of the player to move.
    pub open spec fn holds(self, card: Card) -> bool {
        card == self.hand().0 || card == self.hand().1
    }

    /// The steps that `card` allows the player to move: blue plays it mirrored.
    pub open spec fn steps(self, card: Card) -> Seq<Pos> {
        if self.red_to_move {
            card.offsets_spec()
        } else {
            card.rev_offsets_spec()
        }
    }

    /// Whether the player to move may play `card` from `start` to `end`.
    pub open spec fn legal(self, card: Card, start: Pos, end: Pos) -> bool {
        &&& start.in_bounds_spec()
        &&& end.in_bounds_spec()
        &&& self.friendly(start)
        &&& !self.friendly(end)
        &&& self.steps(card).contains(step(end.0 - start.0, end.1 - start.1))
        &&& self.holds(card)
    }

    /// The record of playing `card` from `start` to `end` in this position.
    pub open spec fn move_of(self, card: Card, start: Pos, end: Pos) -> GameMove {
        GameMove {
            start_pos: start,
            end_pos: end,
            used_card: card,
            transferred_card: self.transfer_card,
            moved_piece: self.at(start).unwrap(),
            captured_piece: self.at(end),
        }
    }

    /// Whether `m` records a legal move of this position, in every field.
    pub open spec fn is_legal_move(self, m: GameMove) -> bool {
        &&& self.legal(m.used_card, m.start_pos, m.end_pos)
        &&& m == self.move_of(m.used_card, m.start_pos, m.end_pos)
    }

    /// Red's cards once `used` has been played: the first slot of red's that
    /// holds it takes the transfer card.
    pub open spec fn red_cards_after(self, used: Card) -> (Card, Card) {
        if self.red_cards.0 == used {
            (self.transfer_card, self.red_cards.1)
        } else if self.red_cards.1 == used {
            (self.red_cards.0, self.transfer_card)
        } else {
            self.red_cards
        }
    }

    /// Blue's cards once `used` has been played: unchanged where red held the
    /// card, else the first slot of blue's that holds it takes the transfer
    /// card.
    pub open spec fn blue_cards_after(self, used: Card) -> (Card, Card) {
        if self.red_cards.0 == used || self.red_cards.1 == used {
            self.blue_cards
        } else if self.blue_cards.0 == used {
            (self.transfer_card, self.blue_cards.1)
        } else if self.blue_cards.1 == used {
            (self.blue_cards.0, self.transfer_card)
        } else {
            self.blue_cards
        }
    }

    /// The winner once `m` has been played: a sensei that reaches the other
    /// side's home square wins, else the capture of a sensei decides, else
    /// nothing changes.
    pub open spec fn winner_after(self, m: GameMove) -> Option<bool> {
        if m.moved_piece == Piece::RedSensei && m.end_pos == Pos(0, 2) {
            Some(true)
        } else if m.moved_piece == Piece::BlueSensei && m.end_pos == Pos(4, 2) {
            Some(false)
        } else {
            match self.at(m.end_pos) {
                Some(Piece::RedSensei) => Some(false),
                Some(Piece::BlueSensei) => Some(true),
                _ => self.winner,
            }
        }
    }

    /// The position after `m`, whether or not `m` is legal.
    pub open spec fn apply(self, m: GameMove) -> Position
        recommends
            m.on_board(),
    {
        Position {
            squares: self.squares.update(m.start_pos.index_spec(), None).update(
                m.end_pos.index_spec(),
                Some(m.moved_piece),
            ),
            red_to_move: !self.red_to_move,
            red_cards: self.red_cards_after(m.used_card),
            blue_cards: self.blue_cards_after(m.used_card),
            transfer_card: m.used_card,
            winner: self.winner_after(m),
        }
    }

    /// Red's cards once a move that used `used` and found `transferred` as
    /// transfer card has been taken back.
    pub open spec fn red_cards_before(self, used: Card, transferred: Card) -> (Card, Card) {
        if self.red_cards.0 == transferred {
            (used, self.red_cards.1)
        } else if self.red_cards.1 == transferred {
            (self.red_cards.0, used)
        } else {
            self.red_cards
        }
    }

    /// Blue's cards once that move has been taken back.
    pub open spec fn blue_cards_before(self, used: Card, transferred: Card) -> (Card, Card) {
        if self.red_cards.0 == transferred || self.red_cards.1 == transferred {
            self.blue_cards
        } else if self.blue_cards.0 == transferred {
            (used, self.blue_cards.1)
        } else if self.blue_cards.1 == transferred {
            (self.blue_cards.0, used)
        } else {
            self.blue_cards
        }
    }

    /// The position with `m` taken back: the moved piece is on its start
    /// square again, what it captured on its end square, the cards are
    /// handed back, and there is no winner.
    pub open spec fn revert(self, m: GameMove) -> Position
        recommends
            m.on_board(),
    {
        Position {
            squares: self.squares.update(m.start_pos.index_spec(), Some(m.moved_piece)).update(
                m.end_pos.index_spec(),
                m.captured_piece,
            ),
            red_to_move: !self.red_to_move,
            red_cards: self.red_cards_before(m.used_card, m.transferred_card),
            blue_cards: self.blue_cards_before(m.used_card, m.transferred_card),
            transfer_card: m.transferred_card,
            winner: None,
        }
    }

    /// The moves from `start` that the given steps of `card` allow, in the
    /// order of the steps: a step counts if it ends on the board and not on
    /// a piece of the player to move.
    pub open spec fn step_moves(self, start: Pos, card: Card, steps: Seq<Pos>) -> Seq<GameMove>
        decreases steps.len(),
    {
        if steps.len() == 0 {
            Seq::empty()
        } else {
            let earlier = self.step_moves(start, card, steps.drop_last());
            let end = start.offset_spec(steps.last());
            if end.in_bounds_spec() && !self.friendly(end) {
                earlier.push(self.move_of(card, start, end))
            } else {
                earlier
            }
        }
    }

    /// The legal moves of the piece on `start`: those of the mover's first
    /// card, then those of the second. Empty where `start` is off the board
    /// or holds no piece of the player to move.
    pub open spec fn moves_from(self, start: Pos) -> Seq<GameMove> {
        if start.in_bounds_spec() && self.friendly(start) {
            self.step_moves(start, self.hand().0, self.steps(self.hand().0)) + self.step_moves(
                start,
                self.hand().1,
                self.steps(self.hand().1),
            )
        } else {
            Seq::empty()
        }
    }

    /// The legal moves from the first `n` squares, square by square.
    pub open spec fn moves_upto(self, n: int) -> Seq<GameMove>
        decreases n,
    {
        if n <= 0 {
            Seq::empty()
        } else {
            self.moves_upto(n - 1) + self.moves_from(Pos::from_index_spec(n - 1))
        }
    }

    /// Every legal move of the player to move, by start square in row-major
    /// order.
    pub open spec fn legal_moves(self) -> Seq<GameMove> {
        self.moves_upto(25)
    }

    /// Won once a winner is recorded; a stalemate where the player to move
    /// has no legal move.
    pub open spec fn status(self) -> GameStatus {
        match self.winner {
            Some(true) => GameStatus::RedWon,
            Some(false) => GameStatus::BlueWon,
            None => if self.legal_moves().len() == 0 {
                GameStatus::Stalemate
            } else {
                GameStatus::Playing
            },
        }
    }

    /// Whether the player to move has a legal move after which a winner is
    /// recorded.
    pub open spec fn wins_at_once(self) -> bool {
        exists|i: int|
            0 <= i < self.legal_moves().len() && (#[trigger] self.winner_after(
                self.legal_moves()[i],
            )) is Some
    }

    /// Whether the game is over: won or stale.
    pub open spec fn finished(self) -> bool {
        self.status() != GameStatus::Playing
    }

    /// The squares among the first `n` that hold a piece of the given colour,
    /// in row-major order.
    pub open spec fn positions_upto(self, red: bool, n: int) -> Seq<Pos>
        decreases n,
    {
        if n <= 0 {
            Seq::empty()
        } else {
            let earlier = self.positions_upto(red, n - 1);
            match self.squares[n - 1] {
                Some(piece) => if piece.is_red_spec() == red {
                    earlier.push(Pos::from_index_spec(n - 1))
                } else {
                    earlier
                },
                None => earlier,
            }
        }
    }

    /// The pieces on the first `n` squares with their squares, in row-major
    /// order.
    pub open spec fn pieces_upto(self, n: int) -> Seq<(Piece, Pos)>
        decreases n,
    {
        if n <= 0 {
            Seq::empty()
        } else {
            let earlier = self.pieces_upto(n - 1);
            match self.squares[n - 1] {
                Some(piece) => earlier.push((piece, Pos::from_index_spec(n - 1))),
                None => earlier,
            }
        }
    }
}

/// A position together with its record: the moves played so far and the
/// layout and cards that the game began with.
#[verifier::ext_equal]
pub struct BoardState {
    pub position: Position,
    /// The moves played and not taken back, oldest first.
    pub history: Seq<GameMove>,
    /// Whether the game began from the standard layout.
    pub default_start: bool,
    pub initial_squares: Seq<Option<Piece>>,
    pub initial_cards: Seq<Card>,
}

impl BoardState {
    /// Whether the state has its shape: 25 squares now and at the start,
    /// five cards at the start, and a history of moves on the board.
    pub open spec fn wf(self) -> bool {
        &&& self.position.wf()
        &&& self.initial_squares.len() == 25
        &&& self.initial_cards.len() == 5
        &&& forall|i: int| 0 <= i < self.history.len() ==> (#[trigger] self.history[i]).on_board()
    }

    /// A game about to begin: red to move, no winner, no history.
    pub open spec fn start(
        default_start: bool,
        squares: Seq<Option<Piece>>,
        cards: Seq<Card>,
    ) -> BoardState
        recommends
            squares.len() == 25,
            cards.len() == 5,
    {
        BoardState {
            position: Position {
                squares,
                red_to_move: true,
                red_cards: (cards[0], cards[1]),
                blue_cards: (cards[2], cards[3]),
                transfer_card: cards[4],
                winner: None,
            },
            history: Seq::empty(),
            default_start,
            initial_squares: squares,
            initial_cards: cards,
        }
    }

    /// The state that this game began from.
    pub open spec fn opening(self) -> BoardState {
        BoardState::start(self.default_start, self.initial_squares, self.initial_cards)
    }

    /// The state after `m`: the position changes and the record grows.
    pub open spec fn apply(self, m: GameMove) -> BoardState {
        BoardState { position: self.position.apply(m), history: self.history.push(m), ..self }
    }

    /// The state with the last move taken back.
    pub open spec fn undo(self) -> BoardState
        recommends
            self.history.len() > 0,
    {
        BoardState {
            position: self.position.revert(self.history.last()),
            history: self.history.drop_last(),
            ..self
        }
    }

    /// The state reached from `self` by playing `moves` in order, if each is
    /// legal where it is played.
    pub open spec fn play(self, moves: Seq<GameMove>) -> Option<BoardState>
        decreases moves.len(),
    {
        if moves.len() == 0 {
            Some(self)
        } else {
            match self.play(moves.drop_last()) {
                Some(before) => if before.position.is_legal_move(moves.last()) {
                    Some(before.apply(moves.last()))
                } else {
                    None
                },
                None => None,
            }
        }
    }

    /// Whether this state is what legal play from its own opening gives:
    /// the opening holds five different cards, is the standard layout where
    /// it says so, and playing the record from it leads here.
    pub open spec fn reachable(self) -> bool {
        &&& self.wf()
        &&& all_distinct(self.initial_cards)
        &&& (self.default_start ==> self.initial_squares == standard_squares())
        &&& self.opening().play(self.history) == Some(self)
    }
}

} // verus!
