//! The game tree as mathematics: what a position is worth when both players
//! look a number of moves ahead, and what alpha-beta pruning computes of it.

use crate::ai::evaluation::{evaluate, Heuristic};
use crate::game::rules::Position;
use crate::game::GameMove;
use vstd::prelude::*;

verus! {

/// Below every score: where a search starts before it has seen a move.
pub const LOWER_LIM: i32 = -1073741824;

/// Above every score but the win of [`Heuristic::Material`], which it
/// equals.
pub const UPPER_LIM: i32 = 1073741823;

/// The larger of two scores.
pub open spec fn larger(a: int, b: int) -> int {
    if a >= b {
        a
    } else {
        b
    }
}

/// What `p` is worth to the player to move in it when the game is looked
/// `depth` moves ahead: the score of `p` where it is decided, stale or
/// `depth` is 0, else the best of what its moves are worth.
pub open spec fn negamax(h: Heuristic, p: Position, depth: nat) -> int
    decreases depth, 0nat,
{
    if depth == 0 || p.finished() {
        evaluate(h, p, p.red_to_move)
    } else {
        best_reply(h, p, (depth - 1) as nat, p.legal_moves())
    }
}

/// What the move `m` is worth to the player who plays it in `p`, when the
/// position it leads to is looked `depth` moves ahead: what that position
/// is worth to the other player, negated.
pub open spec fn reply_value(h: Heuristic, p: Position, depth: nat, m: GameMove) -> int
    decreases depth, 1nat,
{
    -negamax(h, p.apply(m), depth)
}

/// The most that any of `moves` is worth in `p`; [`LOWER_LIM`] where there
/// are none.
pub open spec fn best_reply(h: Heuristic, p: Position, depth: nat, moves: Seq<GameMove>) -> int
    decreases depth, moves.len() + 2,
{
    if moves.len() == 0 {
        LOWER_LIM as int
    } else {
        larger(best_reply(h, p, depth, moves.drop_last()), reply_value(h, p, depth, moves.last()))
    }
}

/// The place in `moves` of the first move that is worth the most; 0 where
/// there are none.
pub open spec fn best_index(h: Heuristic, p: Position, depth: nat, moves: Seq<GameMove>) -> int
    decreases moves.len(),
{
    if moves.len() <= 1 {
        0
    } else {
        let earlier = best_index(h, p, depth, moves.drop_last());
        if reply_value(h, p, depth, moves.last()) > reply_value(h, p, depth, moves[earlier]) {
            moves.len() - 1
        } else {
            earlier
        }
    }
}

/// The move that a search of `p` chooses when it looks `depth` moves ahead
/// of each move: the first legal move that is worth the most.
pub open spec fn best_move(h: Heuristic, p: Position, depth: nat) -> GameMove {
    p.legal_moves()[best_index(h, p, depth, p.legal_moves())]
}

/// The moves of `moves` that capture, in their order.
pub open spec fn captures_of(moves: Seq<GameMove>) -> Seq<GameMove>
    decreases moves.len(),
{
    if moves.len() == 0 {
        Seq::empty()
    } else if moves.last().captured_piece is Some {
        captures_of(moves.drop_last()).push(moves.last())
    } else {
        captures_of(moves.drop_last())
    }
}

/// The moves of `moves` that capture nothing, in their order.
pub open spec fn quiet_of(moves: Seq<GameMove>) -> Seq<GameMove>
    decreases moves.len(),
{
    if moves.len() == 0 {
        Seq::empty()
    } else if moves.last().captured_piece is None {
        quiet_of(moves.drop_last()).push(moves.last())
    } else {
        quiet_of(moves.drop_last())
    }
}

/// Move ordering: captures first, then the rest, each group in the order
/// it came in.
pub open spec fn ordered(moves: Seq<GameMove>) -> Seq<GameMove> {
    captures_of(moves) + quiet_of(moves)
}

/// What alpha-beta search returns for `p` looked `depth` moves ahead with
/// the window `(alpha, beta)`.
pub open spec fn alphabeta_value(h: Heuristic, p: Position, depth: nat, alpha: int, beta: int) -> int
    decreases depth, 0nat,
{
    if depth == 0 || p.finished() {
        evaluate(h, p, p.red_to_move)
    } else {
        scan_value(
            h,
            p,
            (depth - 1) as nat,
            ordered(p.legal_moves()),
            0,
            alpha,
            beta,
            LOWER_LIM as int,
        )
    }
}

/// What alpha-beta search returns once it has seen the first `from` of
/// `moves` and found `best` among them, with `alpha` raised so far. A move
/// that wins ends the scan, and so does a window that has closed.
pub open spec fn scan_value(
    h: Heuristic,
    p: Position,
    depth: nat,
    moves: Seq<GameMove>,
    from: int,
    alpha: int,
    beta: int,
    best: int,
) -> int
    decreases depth, moves.len() - from + 1,
{
    if from < 0 || from >= moves.len() {
        best
    } else {
        let reply = -alphabeta_value(h, p.apply(moves[from]), depth, -beta, -alpha);
        let best_now = larger(best, reply);
        let alpha_now = larger(alpha, best_now);
        if reply >= h.win_score_spec() {
            reply
        } else if alpha_now >= beta {
            best_now
        } else {
            scan_value(h, p, depth, moves, from + 1, alpha_now, beta, best_now)
        }
    }
}

/// What a search with the window `(alpha, beta)` may return as `returned`
/// where the position is worth `worth`: the worth itself inside the window,
/// a bound on it outside.
pub open spec fn within_window(returned: int, worth: int, alpha: int, beta: int) -> bool {
    &&& returned <= alpha ==> worth <= returned
    &&& alpha < returned < beta ==> worth == returned
    &&& returned >= beta ==> worth >= returned
}

} // verus!
