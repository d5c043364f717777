//! Static evaluation: what a position is worth to a player without looking
//! ahead.

use crate::game::rules::Position;
use crate::game::{Board, GameStatus};
use vstd::prelude::*;

verus! {

/// How a position is scored.
#[derive(Clone, Copy, PartialEq, Eq, Debug, Hash, Structural)]
pub enum Heuristic {
    /// Pieces only; a win counts `i32::MAX / 2`.
    Material,
    /// Pieces and the squares they stand on; a win counts 9999.
    Positional,
}

/// What a piece is worth wherever it stands.
pub const PIECE_VALUE: i32 = 100;

/// What each square adds to the worth of the piece on it, in row-major
/// order: the centre counts most.
pub const PIECE_SQUARE_TABLE: [i32; 25] = [
    0, 0, 0, 0, 0, 1, 5, 5, 5, 1, 2, 5, 10, 5, 2, 1, 5, 5, 5, 1, 0, 0, 0, 0, 0,
];

impl Heuristic {
    /// The score of a decided game.
    pub open spec fn win_score_spec(self) -> int {
        match self {
            Heuristic::Material => 1073741823,
            Heuristic::Positional => 9999,
        }
    }

    /// What the square at place `index` adds to a piece on it.
    pub open spec fn square_value(self, index: int) -> int {
        match self {
            Heuristic::Material => 0,
            Heuristic::Positional => PIECE_SQUARE_TABLE@[index] as int,
        }
    }

    /// The score of a decided game.
    pub fn win_score(self) -> (score: i32)
        ensures
            score == self.win_score_spec(),
    {
        match self {
            Heuristic::Material => i32::MAX / 2,
            Heuristic::Positional => 9999,
        }
    }
}

/// What the first `n` squares are worth to the player of the given colour:
/// each piece counts its value and that of its square, for its owner and
/// against the other player.
pub open spec fn material_upto(h: Heuristic, p: Position, red: bool, n: int) -> int
    decreases n,
{
    if n <= 0 {
        0
    } else {
        let earlier = material_upto(h, p, red, n - 1);
        match p.squares[n - 1] {
            Some(piece) => if piece.is_red_spec() == red {
                earlier + PIECE_VALUE + h.square_value(n - 1)
            } else {
                earlier - PIECE_VALUE - h.square_value(n - 1)
            },
            None => earlier,
        }
    }
}

/// The score of a position for the player of the given colour, who is to
/// move in it. A decided game was decided by the move just played, so it
/// counts as lost, whoever won; a stalemate counts nothing; an open game
/// counts its material.
pub open spec fn evaluate(h: Heuristic, p: Position, red: bool) -> int {
    match p.status() {
        GameStatus::RedWon | GameStatus::BlueWon => -h.win_score_spec(),
        GameStatus::Stalemate => 0,
        GameStatus::Playing => material_upto(h, p, red, 25),
    }
}

/// Material stays far below the score of a win.
pub proof fn lemma_material_bounds(h: Heuristic, p: Position, red: bool, n: int)
    requires
        0 <= n <= 25,
    ensures
        -110 * n <= material_upto(h, p, red, n) <= 110 * n,
    decreases n,
{
    if n > 0 {
        lemma_material_bounds(h, p, red, n - 1);
        assert(0 <= h.square_value(n - 1) <= 10);
    }
}

/// No position scores beyond a win or a loss.
pub proof fn lemma_evaluate_bounds(h: Heuristic, p: Position, red: bool)
    ensures
        -h.win_score_spec() <= evaluate(h, p, red) <= h.win_score_spec(),
{
    lemma_material_bounds(h, p, red, 25);
}

/// The score of `board` for the player of the given colour.
pub fn evaluation(board: &Board, red_to_move: bool, heuristic: Heuristic) -> (score: i32)
    ensures
        score == evaluate(heuristic, board@.position, red_to_move),
{
    match board.status() {
        GameStatus::RedWon | GameStatus::BlueWon => {
            return -heuristic.win_score();
        },
        GameStatus::Stalemate => {
            return 0;
        },
        GameStatus::Playing => {},
    }
    let squares = board.squares();
    let ghost p = board@.position;
    let mut sum: i32 = 0;
    let mut i: usize = 0;
    while i < 25
        invariant
            i <= 25,
            squares@ == p.squares,
            sum == material_upto(heuristic, p, red_to_move, i as int),
            -110 * i <= sum <= 110 * i,
        decreases 25 - i,
    {
        let place_value: i32 = match heuristic {
            Heuristic::Material => 0,
            Heuristic::Positional => PIECE_SQUARE_TABLE[i],
        };
        assert(0 <= place_value <= 10);
        match squares[i] {
            Some(piece) => {
                if piece.is_red() == red_to_move {
                    sum = sum + PIECE_VALUE + place_value;
                } else {
                    sum = sum - PIECE_VALUE - place_value;
                }
            },
            None => {},
        }
        i += 1;
    }
    sum
}

} // verus!
