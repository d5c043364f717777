//! Move ordering: which moves a search looks at first.

use crate::ai::tree::{captures_of, ordered, quiet_of};
use crate::game::GameMove;
use vstd::prelude::*;

verus! {

/// Puts the moves that capture before those that do not, and keeps the
/// order in which the moves of each kind came.
pub fn reorder_moves(candidate_moves: &mut Vec<GameMove>)
    ensures
        final(candidate_moves)@ == ordered(old(candidate_moves)@),
{
    let mut captures: Vec<GameMove> = Vec::with_capacity(candidate_moves.len());
    let mut quiet: Vec<GameMove> = Vec::with_capacity(candidate_moves.len());
    let mut i: usize = 0;
    while i < candidate_moves.len()
        invariant
            i <= candidate_moves@.len(),
            candidate_moves@ == old(candidate_moves)@,
            captures@ == captures_of(candidate_moves@.take(i as int)),
            quiet@ == quiet_of(candidate_moves@.take(i as int)),
        decreases candidate_moves.len() - i,
    {
        let game_move = candidate_moves[i];
        proof {
            assert(candidate_moves@.take(i + 1).drop_last() == candidate_moves@.take(i as int));
            assert(candidate_moves@.take(i + 1).last() == game_move);
        }
        if game_move.captured_piece.is_some() {
            captures.push(game_move);
        } else {
            quiet.push(game_move);
        }
        i += 1;
    }
    assert(candidate_moves@.take(candidate_moves@.len() as int) == candidate_moves@);
    captures.append(&mut quiet);
    *candidate_moves = captures;
}

} // verus!
