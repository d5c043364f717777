//! Minimax to a fixed depth with alpha-beta pruning below the root.

use crate::ai::evaluation::Heuristic;
use crate::ai::min_max_v2::alphabeta;
use crate::ai::tree::{best_index, reply_value, LOWER_LIM, UPPER_LIM};
use crate::ai::tree_laws::{lemma_alphabeta_exact, lemma_best_index_step, lemma_negamax_bounds};
use crate::ai::{cancel_requested, first_best_of, signal_done, AIOpponent, RootChoice};
use crate::game::laws::{lemma_cards_stay_distinct, lemma_legal_moves_sound, lemma_undo_restores};
use crate::game::{Board, GameMove, GameStatus};
use std::sync::atomic::AtomicBool;
use std::sync::Arc;
use std::time::Duration;
use vstd::prelude::*;

verus! {

/// Looks a fixed number of moves ahead and prunes what cannot matter.
pub struct MinMaxV1 {
    max_depth: u32,
}

impl Default for MinMaxV1 {
    fn default() -> (ai: MinMaxV1)
        ensures
            ai.max_depth_spec() == 5,
    {
        MinMaxV1 { max_depth: 5 }
    }
}

impl MinMaxV1 {
    #[verifier::type_invariant]
    spec fn looks_ahead(self) -> bool {
        self.max_depth >= 1
    }

    /// How many moves the search looks ahead, its own move counted.
    pub closed spec fn max_depth_spec(self) -> nat {
        self.max_depth as nat
    }

    /// A search that looks `max_depth` moves ahead: at least its own move.
    pub fn new(max_depth: u32) -> (ai: MinMaxV1)
        requires
            max_depth >= 1,
        ensures
            ai.max_depth_spec() == max_depth,
    {
        MinMaxV1 { max_depth }
    }

    /// How many moves the search looks ahead, its own move counted.
    pub fn max_depth(&self) -> (depth: u32)
        ensures
            depth == self.max_depth_spec(),
            depth >= 1,
    {
        proof {
            use_type_invariant(self);
        }
        self.max_depth
    }

    /// Searches every legal move of `board` in turn with the full window
    /// and keeps the first that is worth the most: the move that plain
    /// minimax keeps. Stops at the first move whose search was cancelled,
    /// and reports how many moves it examined in full.
    pub fn search_root(&self, cancel_signal: &AtomicBool, board: &mut Board) -> (choice: RootChoice)
        requires
            old(board)@.position.cards_distinct(),
            old(board)@.position.status() == GameStatus::Playing,
        ensures
            final(board)@ == old(board)@,
            choice.holds_for(
                Heuristic::Material,
                old(board)@.position,
                (self.max_depth_spec() - 1) as nat,
            ),
    {
        let depth = self.max_depth();
        let ghost state = board@;
        let ghost p = state.position;
        let ghost below = (self.max_depth_spec() - 1) as nat;
        let moves = board.legal_moves();
        let mut best_move = moves[0];
        let mut best_eval: i32 = i32::MIN;
        let ghost mut best_at: int = 0;
        let mut i: usize = 0;
        while i < moves.len()
            invariant
                i <= moves@.len(),
                moves@.len() > 0,
                moves@ == p.legal_moves(),
                board@ == state,
                state == old(board)@,
                p == state.position,
                state.wf(),
                p.cards_distinct(),
                p.winner is None,
                depth == self.max_depth_spec(),
                depth >= 1,
                below == depth - 1,
                best_at == best_index(Heuristic::Material, p, below, moves@.take(i as int)),
                0 <= best_at < moves@.len(),
                best_move == moves@[best_at],
                i == 0 ==> best_eval == i32::MIN,
                i > 0 ==> best_eval == reply_value(Heuristic::Material, p, below, best_move),
            decreases moves.len() - i,
        {
            let candidate_move = moves[i];
            proof {
                lemma_legal_moves_sound(p, i as int);
                lemma_cards_stay_distinct(p, candidate_move);
                lemma_undo_restores(state, candidate_move);
                lemma_negamax_bounds(Heuristic::Material, p.apply(candidate_move), below);
                lemma_alphabeta_exact(Heuristic::Material, p.apply(candidate_move), below);
                lemma_best_index_step(Heuristic::Material, p, below, moves@, i as int);
            }
            board.make_move_unchecked(candidate_move);
            let reply = alphabeta(
                cancel_signal,
                board,
                Heuristic::Material,
                depth - 1,
                LOWER_LIM,
                UPPER_LIM,
            );
            board.undo_move();
            if reply.cancelled || cancel_requested(cancel_signal) {
                return RootChoice { best_move, eval: best_eval, examined: i };
            }
            let eval = -reply.value;
            assert(eval == reply_value(Heuristic::Material, p, below, candidate_move));
            if eval > best_eval {
                best_move = candidate_move;
                best_eval = eval;
                proof {
                    best_at = i as int;
                }
            }
            i += 1;
        }
        assert(moves@.take(moves@.len() as int) == moves@);
        RootChoice { best_move, eval: best_eval, examined: moves.len() }
    }
}

impl AIOpponent for MinMaxV1 {
    fn search(
        &self,
        cancel_signal: Arc<AtomicBool>,
        mut board: Board,
        _remaining_time: Option<Duration>,
    ) -> (chosen: GameMove)
        ensures
            exists|examined: int|
                {
                    &&& 0 <= examined <= board@.position.legal_moves().len()
                    &&& chosen == #[trigger] first_best_of(
                        Heuristic::Material,
                        board@.position,
                        (self.max_depth_spec() - 1) as nat,
                        examined,
                    )
                },
    {
        let choice = self.search_root(&cancel_signal, &mut board);
        assert(choice.best_move == first_best_of(
            Heuristic::Material,
            board@.position,
            (self.max_depth_spec() - 1) as nat,
            choice.examined as int,
        ));
        signal_done(&cancel_signal);
        choice.best_move
    }
}

} // verus!
