//! Plain minimax to a fixed depth.

use crate::ai::evaluation::{evaluate, evaluation, Heuristic};
use crate::ai::tree::{best_index, best_reply, negamax, reply_value, LOWER_LIM};
use crate::ai::tree_laws::{
    lemma_best_index_step, lemma_best_reply_bounds, lemma_negamax_bounds,
};
use crate::ai::{cancel_requested, first_best_of, AIOpponent, RootChoice, Score};
use crate::game::laws::{lemma_cards_stay_distinct, lemma_legal_moves_sound, lemma_undo_restores};
use crate::game::{Board, GameMove, GameStatus};
use std::sync::atomic::AtomicBool;
use std::sync::Arc;
use std::time::Duration;
use vstd::prelude::*;

verus! {

/// Looks a fixed number of moves ahead and visits every line of play.
pub struct MinMaxV0 {
    max_depth: u32,
}

impl Default for MinMaxV0 {
    fn default() -> (ai: MinMaxV0)
        ensures
            ai.max_depth_spec() == 5,
    {
        MinMaxV0 { max_depth: 5 }
    }
}

impl MinMaxV0 {
    #[verifier::type_invariant]
    spec fn looks_ahead(self) -> bool {
        self.max_depth >= 1
    }

    /// How many moves the search looks ahead, its own move counted.
    pub closed spec fn max_depth_spec(self) -> nat {
        self.max_depth as nat
    }

    /// A search that looks `max_depth` moves ahead: at least its own move.
    pub fn new(max_depth: u32) -> (ai: MinMaxV0)
        requires
            max_depth >= 1,
        ensures
            ai.max_depth_spec() == max_depth,
    {
        MinMaxV0 { max_depth }
    }

    /// How many moves the search looks ahead, its own move counted.
    pub fn max_depth(&self) -> (depth: u32)
        ensures
            depth == self.max_depth_spec(),
            depth >= 1,
    {
        proof {
            use_type_invariant(self);
        }
        self.max_depth
    }

    /// The score of `board` for the player of the given colour: pieces only.
    pub fn board_eval(board: &Board, red_to_move: bool) -> (score: i32)
        ensures
            score == evaluate(Heuristic::Material, board@.position, red_to_move),
    {
        evaluation(board, red_to_move, Heuristic::Material)
    }

    /// What `board`, reached after `depth` moves of the search, is worth to
    /// the player to move in it. Gives up with 0 once cancellation has been
    /// seen after a move was searched; a position that is not searched
    /// further, because the depth is used up or the game is over, is scored
    /// without a look at the flag. The board is handed back as it came.
    pub fn minmax(&self, cancel_signal: &AtomicBool, board: &mut Board, depth: u32) -> (score:
        Score)
        requires
            old(board)@.position.cards_distinct(),
            depth <= self.max_depth_spec(),
        ensures
            final(board)@ == old(board)@,
            !score.cancelled ==> score.value == negamax(
                Heuristic::Material,
                old(board)@.position,
                (self.max_depth_spec() - depth) as nat,
            ),
            score.cancelled ==> score.value == 0,
            depth == self.max_depth_spec() || old(board)@.position.finished()
                ==> !score.cancelled,
        decreases self.max_depth_spec() - depth,
    {
        let red_to_move = board.red_to_move();
        if depth == self.max_depth || board.finished() {
            return Score { value: MinMaxV0::board_eval(board, red_to_move), cancelled: false };
        }
        let ghost state = board@;
        let ghost p = state.position;
        let ghost below = (self.max_depth_spec() - depth - 1) as nat;
        let moves = board.legal_moves();
        let mut best_eval: i32 = LOWER_LIM;
        let mut i: usize = 0;
        while i < moves.len()
            invariant
                i <= moves@.len(),
                moves@ == p.legal_moves(),
                board@ == state,
                state == old(board)@,
                p == state.position,
                state.wf(),
                p.cards_distinct(),
                p.winner is None,
                !p.finished(),
                depth < self.max_depth_spec(),
                below == self.max_depth_spec() - depth - 1,
                best_eval == best_reply(Heuristic::Material, p, below, moves@.take(i as int)),
            decreases moves.len() - i,
        {
            let candidate_move = moves[i];
            proof {
                lemma_legal_moves_sound(p, i as int);
                lemma_cards_stay_distinct(p, candidate_move);
                lemma_undo_restores(state, candidate_move);
                lemma_negamax_bounds(Heuristic::Material, p.apply(candidate_move), below);
                lemma_best_reply_bounds(Heuristic::Material, p, below, moves@.take(i as int));
                assert(moves@.take(i + 1).drop_last() == moves@.take(i as int));
                assert(moves@.take(i + 1).last() == candidate_move);
            }
            board.make_move_unchecked(candidate_move);
            let reply = self.minmax(cancel_signal, board, depth + 1);
            board.undo_move();
            if reply.cancelled || cancel_requested(cancel_signal) {
                return Score { value: 0, cancelled: true };
            }
            let eval = -reply.value;
            assert(eval == reply_value(Heuristic::Material, p, below, candidate_move));
            if eval > best_eval {
                best_eval = eval;
            }
            i += 1;
        }
        assert(moves@.take(moves@.len() as int) == moves@);
        Score { value: best_eval, cancelled: false }
    }

    /// Searches every legal move of `board` in turn and keeps the first
    /// that is worth the most. Stops at the first move whose search was
    /// cancelled, and reports how many moves it examined in full.
    pub fn search_root(&self, cancel_signal: &AtomicBool, board: &mut Board) -> (choice: RootChoice)
        requires
            old(board)@.position.cards_distinct(),
            old(board)@.position.status() == GameStatus::Playing,
        ensures
            final(board)@ == old(board)@,
            choice.holds_for(
                Heuristic::Material,
                old(board)@.position,
                (self.max_depth_spec() - 1) as nat,
            ),
    {
        proof {
            use_type_invariant(self);
        }
        let ghost state = board@;
        let ghost p = state.position;
        let ghost below = (self.max_depth_spec() - 1) as nat;
        let moves = board.legal_moves();
        let mut best_move = moves[0];
        let mut best_eval: i32 = i32::MIN;
        let ghost mut best_at: int = 0;
        let mut i: usize = 0;
        while i < moves.len()
            invariant
                i <= moves@.len(),
                moves@.len() > 0,
                moves@ == p.legal_moves(),
                board@ == state,
                state == old(board)@,
                p == state.position,
                state.wf(),
                p.cards_distinct(),
                p.winner is None,
                below == self.max_depth_spec() - 1,
                best_at == best_index(Heuristic::Material, p, below, moves@.take(i as int)),
                0 <= best_at < moves@.len(),
                best_move == moves@[best_at],
                i == 0 ==> best_eval == i32::MIN,
                i > 0 ==> best_eval == reply_value(Heuristic::Material, p, below, best_move),
            decreases moves.len() - i,
        {
            let candidate_move = moves[i];
            proof {
                lemma_legal_moves_sound(p, i as int);
                lemma_cards_stay_distinct(p, candidate_move);
                lemma_undo_restores(state, candidate_move);
                lemma_negamax_bounds(Heuristic::Material, p.apply(candidate_move), below);
                lemma_best_index_step(Heuristic::Material, p, below, moves@, i as int);
            }
            board.make_move_unchecked(candidate_move);
            let reply = self.minmax(cancel_signal, board, 1);
            board.undo_move();
            if reply.cancelled || cancel_requested(cancel_signal) {
                return RootChoice { best_move, eval: best_eval, examined: i };
            }
            let eval = -reply.value;
            assert(eval == reply_value(Heuristic::Material, p, below, candidate_move));
            if eval > best_eval {
                best_move = candidate_move;
                best_eval = eval;
                proof {
                    best_at = i as int;
                }
            }
            i += 1;
        }
        assert(moves@.take(moves@.len() as int) == moves@);
        RootChoice { best_move, eval: best_eval, examined: moves.len() }
    }
}

impl AIOpponent for MinMaxV0 {
    fn search(
        &self,
        cancel_signal: Arc<AtomicBool>,
        mut board: Board,
        _remaining_time: Option<Duration>,
    ) -> (chosen: GameMove)
        ensures
            exists|examined: int|
                {
                    &&& 0 <= examined <= board@.position.legal_moves().len()
                    &&& chosen == #[trigger] first_best_of(
                        Heuristic::Material,
                        board@.position,
                        (self.max_depth_spec() - 1) as nat,
                        examined,
                    )
                },
    {
        let choice = self.search_root(&cancel_signal, &mut board);
        assert(choice.best_move == first_best_of(
            Heuristic::Material,
            board@.position,
            (self.max_depth_spec() - 1) as nat,
            choice.examined as int,
        ));
        crate::ai::signal_done(&cancel_signal);
        choice.best_move
    }
}

} // verus!
