//! Alpha-beta search, and iterative deepening on top of it.

use crate::ai::deepening::{
    candidates_after, deepening_choice, drawn_from, first_best_index, lemma_candidates_shape,
    lemma_deepening_choice_is_best,
    lemma_sort_desc_shape, rated, sort_candidates, unrated, Candidate,
};
use crate::ai::evaluation::{evaluation, Heuristic};
use crate::ai::ordering::reorder_moves;
use crate::ai::tree::{alphabeta_value, ordered, reply_value, scan_value, LOWER_LIM, UPPER_LIM};
use crate::ai::tree_laws::{
    lemma_alphabeta_bounds, lemma_alphabeta_exact, lemma_negamax_bounds, lemma_ordered_members,
};
use crate::ai::{cancel_requested, signal_done, AIOpponent, Score};
use crate::game::laws::{lemma_cards_stay_distinct, lemma_legal_moves_sound, lemma_undo_restores};
use crate::game::{Board, GameMove, GameStatus};
use std::sync::atomic::AtomicBool;
use std::sync::Arc;
use std::time::Duration;
use vstd::prelude::*;

verus! {

/// What `board` is worth to the player to move in it, looked `depth` moves
/// ahead, as far as the window `(alpha, beta)` needs to know: moves that
/// capture are searched first, a move that wins ends the search of its
/// position, and so does a window that has closed. The cancellation flag
/// is read right after each move has been searched, before anything is
/// made of what the move is worth: once it is seen set, the search gives up
/// with 0. A position that is not searched further, because `depth` is 0 or
/// the game is over, is scored without a look at the flag. The board is
/// handed back as it came.
pub fn alphabeta(
    cancel_signal: &AtomicBool,
    board: &mut Board,
    heuristic: Heuristic,
    depth: u32,
    alpha: i32,
    beta: i32,
) -> (score: Score)
    requires
        old(board)@.position.cards_distinct(),
        LOWER_LIM <= alpha <= -LOWER_LIM,
        LOWER_LIM <= beta <= -LOWER_LIM,
    ensures
        final(board)@ == old(board)@,
        !score.cancelled ==> score.value == alphabeta_value(
            heuristic,
            old(board)@.position,
            depth as nat,
            alpha as int,
            beta as int,
        ),
        score.cancelled ==> score.value == 0,
        depth == 0 || old(board)@.position.finished() ==> !score.cancelled,
    decreases depth,
{
    let red_to_move = board.red_to_move();
    if depth == 0 || board.finished() {
        return Score { value: evaluation(board, red_to_move, heuristic), cancelled: false };
    }
    let ghost state = board@;
    let ghost p = state.position;
    let ghost below = (depth - 1) as nat;
    let ghost target = alphabeta_value(heuristic, p, depth as nat, alpha as int, beta as int);
    let win_score = heuristic.win_score();
    let mut candidate_moves = board.legal_moves();
    reorder_moves(&mut candidate_moves);
    proof {
        lemma_ordered_members(p.legal_moves());
    }
    let mut raised = alpha;
    let mut best_eval: i32 = LOWER_LIM;
    let mut i: usize = 0;
    while i < candidate_moves.len()
        invariant
            i <= candidate_moves@.len(),
            candidate_moves@ == ordered(p.legal_moves()),
            forall|k: int|
                0 <= k < candidate_moves@.len() ==> p.legal_moves().contains(
                    #[trigger] candidate_moves@[k],
                ),
            board@ == state,
            state == old(board)@,
            p == state.position,
            state.wf(),
            p.cards_distinct(),
            p.winner is None,
            !p.finished(),
            depth >= 1,
            below == depth - 1,
            win_score == heuristic.win_score_spec(),
            LOWER_LIM <= raised <= -LOWER_LIM,
            LOWER_LIM <= beta <= -LOWER_LIM,
            LOWER_LIM <= best_eval <= heuristic.win_score_spec(),
            i > 0 ==> -heuristic.win_score_spec() <= best_eval,
            target == alphabeta_value(heuristic, p, depth as nat, alpha as int, beta as int),
            target == scan_value(
                heuristic,
                p,
                below,
                candidate_moves@,
                i as int,
                raised as int,
                beta as int,
                best_eval as int,
            ),
        decreases candidate_moves.len() - i,
    {
        let candidate_move = candidate_moves[i];
        proof {
            let j = choose|j: int|
                0 <= j < p.legal_moves().len() && p.legal_moves()[j] == candidate_move;
            lemma_legal_moves_sound(p, j);
            lemma_cards_stay_distinct(p, candidate_move);
            lemma_undo_restores(state, candidate_move);
            lemma_alphabeta_bounds(
                heuristic,
                p.apply(candidate_move),
                below,
                -(beta as int),
                -(raised as int),
            );
        }
        let ghost found = -alphabeta_value(
            heuristic,
            p.apply(candidate_move),
            below,
            -(beta as int),
            -(raised as int),
        );
        let ghost best_now = crate::ai::tree::larger(best_eval as int, found);
        let ghost raised_now = crate::ai::tree::larger(raised as int, best_now);
        assert(target == if found >= heuristic.win_score_spec() {
            found
        } else if raised_now >= beta {
            best_now
        } else {
            scan_value(
                heuristic,
                p,
                below,
                candidate_moves@,
                i + 1,
                raised_now,
                beta as int,
                best_now,
            )
        });
        board.make_move_unchecked(candidate_move);
        let reply = alphabeta(cancel_signal, board, heuristic, depth - 1, -beta, -raised);
        board.undo_move();
        if reply.cancelled || cancel_requested(cancel_signal) {
            return Score { value: 0, cancelled: true };
        }
        let eval = -reply.value;
        if eval >= win_score {
            return Score { value: eval, cancelled: false };
        }
        if eval > best_eval {
            best_eval = eval;
        }
        if best_eval > raised {
            raised = best_eval;
        }
        if raised >= beta {
            return Score { value: best_eval, cancelled: false };
        }
        i += 1;
    }
    Score { value: best_eval, cancelled: false }
}

/// Searches deeper pass by pass, and orders the moves of each pass by what
/// the pass before it found.
pub struct MinMaxV2 {
    max_depth: u32,
}

/// What an iterative deepening search came to.
#[derive(Clone, Copy, Debug)]
pub struct DeepeningChoice {
    /// The move that the last complete pass confirmed as best; the first
    /// legal move where no pass was completed.
    pub best_move: GameMove,
    /// How many passes were completed.
    pub completed: u32,
    /// Whether the search saw the cancellation flag set and gave up.
    pub cancelled: bool,
}

impl Default for MinMaxV2 {
    fn default() -> (ai: MinMaxV2)
        ensures
            ai.max_depth_spec() == 20,
    {
        MinMaxV2 { max_depth: 20 }
    }
}

impl MinMaxV2 {
    /// The depth that the passes stay below: pass `d` runs for each `d`
    /// from 1 that is less than it.
    pub closed spec fn max_depth_spec(self) -> nat {
        self.max_depth as nat
    }

    /// How many passes a search makes when nothing cancels it.
    pub open spec fn passes(self) -> nat {
        if self.max_depth_spec() >= 1 {
            (self.max_depth_spec() - 1) as nat
        } else {
            0
        }
    }

    /// A search whose passes stay below `max_depth`.
    pub fn new(max_depth: u32) -> (ai: MinMaxV2)
        ensures
            ai.max_depth_spec() == max_depth,
    {
        MinMaxV2 { max_depth }
    }

    /// The depth that the passes stay below.
    pub fn max_depth(&self) -> (depth: u32)
        ensures
            depth == self.max_depth_spec(),
    {
        self.max_depth
    }

    /// Runs pass after pass, each one move deeper than the one before. A
    /// pass sorts the moves by what the pass before it found them worth,
    /// best first, and searches each with the full window; once it is
    /// complete, the first of its best moves is confirmed. A pass that is
    /// cancelled confirms nothing: the search then returns what the last
    /// complete pass confirmed, a legal move that no other is worth more
    /// than, looked as far ahead as that pass looked.
    pub fn search_deepening(&self, cancel_signal: &AtomicBool, board: &mut Board) -> (choice:
        DeepeningChoice)
        requires
            old(board)@.position.cards_distinct(),
            old(board)@.position.status() == GameStatus::Playing,
        ensures
            final(board)@ == old(board)@,
            choice.completed <= self.passes(),
            !choice.cancelled ==> choice.completed == self.passes(),
            self.passes() == 0 ==> !choice.cancelled,
            choice.best_move == deepening_choice(
                Heuristic::Positional,
                old(board)@.position,
                choice.completed as nat,
            ),
            old(board)@.position.legal_moves().contains(choice.best_move),
            choice.completed >= 1 ==> forall|j: int|
                0 <= j < old(board)@.position.legal_moves().len() ==> #[trigger] reply_value(
                    Heuristic::Positional,
                    old(board)@.position,
                    choice.completed as nat,
                    old(board)@.position.legal_moves()[j],
                ) <= reply_value(
                    Heuristic::Positional,
                    old(board)@.position,
                    choice.completed as nat,
                    choice.best_move,
                ),
    {
        let ghost state = board@;
        let ghost p = state.position;
        let ghost h = Heuristic::Positional;
        let moves = board.legal_moves();
        let mut candidates: Vec<Candidate> = Vec::with_capacity(moves.len());
        let mut k: usize = 0;
        while k < moves.len()
            invariant
                k <= moves@.len(),
                candidates@ == unrated(moves@).take(k as int),
            decreases moves.len() - k,
        {
            candidates.push(Candidate { game_move: moves[k], eval: i32::MIN });
            assert(candidates@ =~= unrated(moves@).take(k + 1));
            k += 1;
        }
        assert(candidates@ =~= unrated(moves@));
        let mut best_move = moves[0];
        let mut d: u32 = 1;
        while d < self.max_depth
            invariant
                1 <= d,
                d <= self.max_depth_spec() || d == 1,
                moves@ == p.legal_moves(),
                moves@.len() > 0,
                board@ == state,
                state == old(board)@,
                p == state.position,
                h == Heuristic::Positional,
                state.wf(),
                p.cards_distinct(),
                p.winner is None,
                candidates@ == candidates_after(h, p, (d - 1) as nat),
                best_move == deepening_choice(h, p, (d - 1) as nat),
                moves@.contains(best_move),
            decreases self.max_depth - d,
        {
            proof {
                lemma_candidates_shape(h, p, (d - 1) as nat);
                lemma_sort_desc_shape(candidates@, moves@);
                lemma_candidates_shape(h, p, d as nat);
            }
            sort_candidates(&mut candidates);
            let ghost order = candidates@;
            let mut i: usize = 0;
            while i < candidates.len()
                invariant
                    i <= candidates@.len(),
                    candidates@.len() == order.len(),
                    order.len() == moves@.len(),
                    drawn_from(order, moves@),
                    moves@ == p.legal_moves(),
                    board@ == state,
                    state == old(board)@,
                    p == state.position,
                    h == Heuristic::Positional,
                    state.wf(),
                    p.cards_distinct(),
                    p.winner is None,
                    1 <= d < self.max_depth_spec(),
                    moves@.contains(best_move),
                    best_move == deepening_choice(h, p, (d - 1) as nat),
                    forall|j: int| 0 <= j < i ==> candidates@[j] == rated(h, p, d as nat, order)[j],
                    forall|j: int| i <= j < order.len() ==> candidates@[j] == order[j],
                decreases candidates.len() - i,
            {
                let game_move = candidates[i].game_move;
                proof {
                    assert(moves@.contains(order[i as int].game_move));
                    let j = choose|j: int| 0 <= j < moves@.len() && moves@[j] == game_move;
                    lemma_legal_moves_sound(p, j);
                    lemma_cards_stay_distinct(p, game_move);
                    lemma_undo_restores(state, game_move);
                    lemma_negamax_bounds(h, p.apply(game_move), d as nat);
                    lemma_alphabeta_exact(h, p.apply(game_move), d as nat);
                }
                board.make_move_unchecked(game_move);
                let reply = alphabeta(
                    cancel_signal,
                    board,
                    Heuristic::Positional,
                    d,
                    LOWER_LIM,
                    UPPER_LIM,
                );
                board.undo_move();
                if reply.cancelled || cancel_requested(cancel_signal) {
                    proof {
                        lemma_deepening_choice_is_best(h, p, (d - 1) as nat);
                    }
                    return DeepeningChoice { best_move, completed: d - 1, cancelled: true };
                }
                let eval = -reply.value;
                assert(eval == reply_value(h, p, d as nat, game_move));
                candidates[i] = Candidate { game_move, eval };
                i += 1;
            }
            assert(candidates@ =~= rated(h, p, d as nat, order));
            let best_at = first_best_index(&candidates);
            best_move = candidates[best_at].game_move;
            assert(moves@.contains(candidates@[best_at as int].game_move));
            d += 1;
        }
        proof {
            lemma_deepening_choice_is_best(h, p, (d - 1) as nat);
        }
        DeepeningChoice { best_move, completed: d - 1, cancelled: false }
    }
}

impl AIOpponent for MinMaxV2 {
    fn search(
        &self,
        cancel_signal: Arc<AtomicBool>,
        mut board: Board,
        _remaining_time: Option<Duration>,
    ) -> (chosen: GameMove)
        ensures
            exists|completed: nat|
                completed <= self.passes() && chosen == #[trigger] deepening_choice(
                    Heuristic::Positional,
                    board@.position,
                    completed,
                ),
    {
        let choice = self.search_deepening(&cancel_signal, &mut board);
        assert(choice.best_move == deepening_choice(
            Heuristic::Positional,
            board@.position,
            choice.completed as nat,
        ));
        signal_done(&cancel_signal);
        choice.best_move
    }
}

} // verus!
