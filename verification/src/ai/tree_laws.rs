//! What holds of the game tree: scores stay within a win and a loss, and
//! alpha-beta pruning returns what plain search returns.

use crate::ai::evaluation::{lemma_evaluate_bounds, Heuristic};
use crate::ai::tree::{
    alphabeta_value, best_index, best_reply, captures_of, larger, negamax, ordered, reply_value,
    scan_value, within_window, LOWER_LIM, UPPER_LIM,
};
use crate::game::rules::Position;
use crate::game::GameMove;
use vstd::prelude::*;

verus! {

/// No position is worth more than a win or less than a loss, however far
/// the game is looked ahead.
pub proof fn lemma_negamax_bounds(h: Heuristic, p: Position, depth: nat)
    ensures
        -h.win_score_spec() <= negamax(h, p, depth) <= h.win_score_spec(),
    decreases depth, 0nat,
{
    if depth == 0 || p.finished() {
        lemma_evaluate_bounds(h, p, p.red_to_move);
    } else {
        lemma_best_reply_bounds(h, p, (depth - 1) as nat, p.legal_moves());
    }
}

/// The best of some moves is worth no more than a win, and no less than a
/// loss where there is a move.
pub proof fn lemma_best_reply_bounds(h: Heuristic, p: Position, depth: nat, moves: Seq<GameMove>)
    ensures
        LOWER_LIM <= best_reply(h, p, depth, moves) <= h.win_score_spec(),
        moves.len() > 0 ==> -h.win_score_spec() <= best_reply(h, p, depth, moves),
    decreases depth, moves.len() + 1,
{
    if moves.len() > 0 {
        lemma_best_reply_bounds(h, p, depth, moves.drop_last());
        lemma_negamax_bounds(h, p.apply(moves.last()), depth);
        assert(reply_value(h, p, depth, moves.last()) == -negamax(
            h,
            p.apply(moves.last()),
            depth,
        ));
    }
}

/// The best of some moves is what one of them is worth, and none is worth
/// more.
pub proof fn lemma_best_reply_is_max(h: Heuristic, p: Position, depth: nat, moves: Seq<GameMove>)
    ensures
        forall|i: int|
            0 <= i < moves.len() ==> #[trigger] reply_value(h, p, depth, moves[i]) <= best_reply(
                h,
                p,
                depth,
                moves,
            ),
        moves.len() > 0 ==> exists|i: int|
            0 <= i < moves.len() && #[trigger] reply_value(h, p, depth, moves[i]) == best_reply(
                h,
                p,
                depth,
                moves,
            ),
    decreases moves.len(),
{
    if moves.len() > 0 {
        let shorter = moves.drop_last();
        lemma_best_reply_is_max(h, p, depth, shorter);
        let best = best_reply(h, p, depth, moves);
        assert forall|i: int| 0 <= i < moves.len() implies #[trigger] reply_value(
            h,
            p,
            depth,
            moves[i],
        ) <= best by {
            if i < shorter.len() {
                assert(shorter[i] == moves[i]);
                assert(reply_value(h, p, depth, shorter[i]) <= best_reply(h, p, depth, shorter));
            }
        }
        if shorter.len() > 0 && best == best_reply(h, p, depth, shorter) {
            let i = choose|i: int|
                0 <= i < shorter.len() && #[trigger] reply_value(h, p, depth, shorter[i])
                    == best_reply(h, p, depth, shorter);
            assert(shorter[i] == moves[i]);
            assert(reply_value(h, p, depth, moves[i]) == best);
        } else {
            lemma_best_reply_bounds(h, p, depth, shorter);
            lemma_negamax_bounds(h, p.apply(moves.last()), depth);
            let i = moves.len() - 1;
            assert(reply_value(h, p, depth, moves[i]) == best);
        }
    }
}

/// Two lists that hold the same moves have the same best.
pub proof fn lemma_best_reply_same_members(
    h: Heuristic,
    p: Position,
    depth: nat,
    a: Seq<GameMove>,
    b: Seq<GameMove>,
)
    requires
        forall|i: int| 0 <= i < a.len() ==> b.contains(#[trigger] a[i]),
        forall|i: int| 0 <= i < b.len() ==> a.contains(#[trigger] b[i]),
    ensures
        best_reply(h, p, depth, a) == best_reply(h, p, depth, b),
{
    lemma_best_reply_is_max(h, p, depth, a);
    lemma_best_reply_is_max(h, p, depth, b);
    if a.len() == 0 {
        if b.len() > 0 {
            assert(a.contains(b[0]));
        }
    } else {
        assert(b.contains(a[0]));
        let i = choose|i: int|
            0 <= i < a.len() && #[trigger] reply_value(h, p, depth, a[i]) == best_reply(
                h,
                p,
                depth,
                a,
            );
        assert(b.contains(a[i]));
        let j = choose|j: int| 0 <= j < b.len() && b[j] == a[i];
        assert(reply_value(h, p, depth, b[j]) <= best_reply(h, p, depth, b));
        let k = choose|k: int|
            0 <= k < b.len() && #[trigger] reply_value(h, p, depth, b[k]) == best_reply(
                h,
                p,
                depth,
                b,
            );
        assert(a.contains(b[k]));
        let l = choose|l: int| 0 <= l < a.len() && a[l] == b[k];
        assert(reply_value(h, p, depth, a[l]) <= best_reply(h, p, depth, a));
    }
}

/// Ordering moves neither adds nor drops a move.
pub proof fn lemma_ordered_members(moves: Seq<GameMove>)
    ensures
        ordered(moves).len() == moves.len(),
        forall|i: int| 0 <= i < ordered(moves).len() ==> moves.contains(#[trigger] ordered(moves)[i]),
        forall|i: int| 0 <= i < moves.len() ==> ordered(moves).contains(#[trigger] moves[i]),
    decreases moves.len(),
{
    if moves.len() > 0 {
        let shorter = moves.drop_last();
        let last = moves.last();
        lemma_ordered_members(shorter);
        let all = ordered(moves);
        let before = ordered(shorter);
        let taken = captures_of(shorter).len();
        assert forall|i: int| 0 <= i < all.len() implies moves.contains(#[trigger] all[i]) by {
            if last.captured_piece is Some {
                if i < taken {
                    assert(all[i] == before[i]);
                } else if i == taken {
                    assert(all[i] == last);
                    assert(moves[moves.len() - 1] == last);
                } else {
                    assert(all[i] == before[i - 1]);
                }
            } else {
                if i < all.len() - 1 {
                    assert(all[i] == before[i]);
                } else {
                    assert(all[i] == last);
                    assert(moves[moves.len() - 1] == last);
                }
            }
            if all[i] != last {
                let j = choose|j: int| 0 <= j < shorter.len() && shorter[j] == all[i];
                assert(moves[j] == all[i]);
            }
        }
        assert forall|i: int| 0 <= i < moves.len() implies all.contains(#[trigger] moves[i]) by {
            if i < shorter.len() {
                assert(shorter[i] == moves[i]);
                assert(before.contains(shorter[i]));
                let j = choose|j: int| 0 <= j < before.len() && before[j] == moves[i];
                if last.captured_piece is Some {
                    if j < taken {
                        assert(all[j] == before[j]);
                    } else {
                        assert(all[j + 1] == before[j]);
                    }
                } else {
                    assert(all[j] == before[j]);
                }
            } else {
                if last.captured_piece is Some {
                    assert(all[taken as int] == last);
                } else {
                    assert(all[all.len() - 1] == last);
                }
            }
        }
    }
}

/// Alpha-beta search returns a score between a loss and a win.
pub proof fn lemma_alphabeta_bounds(h: Heuristic, p: Position, depth: nat, alpha: int, beta: int)
    ensures
        -h.win_score_spec() <= alphabeta_value(h, p, depth, alpha, beta) <= h.win_score_spec(),
    decreases depth, 0nat,
{
    if depth == 0 || p.finished() {
        lemma_evaluate_bounds(h, p, p.red_to_move);
    } else {
        lemma_ordered_members(p.legal_moves());
        lemma_scan_bounds(
            h,
            p,
            (depth - 1) as nat,
            ordered(p.legal_moves()),
            0,
            alpha,
            beta,
            LOWER_LIM as int,
        );
    }
}

/// A scan that has a move to see, or has seen one, returns a score between
/// a loss and a win.
pub proof fn lemma_scan_bounds(
    h: Heuristic,
    p: Position,
    depth: nat,
    moves: Seq<GameMove>,
    from: int,
    alpha: int,
    beta: int,
    best: int,
)
    requires
        0 <= from <= moves.len(),
        best <= h.win_score_spec(),
        from < moves.len() || -h.win_score_spec() <= best,
    ensures
        -h.win_score_spec() <= scan_value(h, p, depth, moves, from, alpha, beta, best)
            <= h.win_score_spec(),
    decreases depth, moves.len() - from + 1,
{
    if from < moves.len() {
        lemma_alphabeta_bounds(h, p.apply(moves[from]), depth, -beta, -alpha);
        let reply = -alphabeta_value(h, p.apply(moves[from]), depth, -beta, -alpha);
        let best_now = larger(best, reply);
        let alpha_now = larger(alpha, best_now);
        if reply >= h.win_score_spec() {
        } else if alpha_now >= beta {
        } else {
            lemma_scan_bounds(h, p, depth, moves, from + 1, alpha_now, beta, best_now);
        }
    }
}

/// Alpha-beta search is sound: inside its window it returns what the
/// position is worth, outside it a bound on that worth, on the side on
/// which it fell.
pub proof fn lemma_alphabeta_sound(h: Heuristic, p: Position, depth: nat, alpha: int, beta: int)
    requires
        LOWER_LIM <= alpha < beta <= -LOWER_LIM,
    ensures
        within_window(alphabeta_value(h, p, depth, alpha, beta), negamax(h, p, depth), alpha, beta),
    decreases depth, 0nat,
{
    if depth == 0 || p.finished() {
    } else {
        let moves = ordered(p.legal_moves());
        let below = (depth - 1) as nat;
        assert(moves.take(0) =~= Seq::<GameMove>::empty());
        lemma_scan_sound(h, p, below, moves, 0, alpha, alpha, beta, LOWER_LIM as int);
        lemma_ordered_members(p.legal_moves());
        lemma_best_reply_same_members(h, p, below, moves, p.legal_moves());
    }
}

/// The scan of alpha-beta search is sound. `alpha0` is the lower end of the
/// window the scan began with; `best` is what it has found among the first
/// `from` moves: their true best where it lies above `alpha0`, a bound on
/// it from above where it does not.
pub proof fn lemma_scan_sound(
    h: Heuristic,
    p: Position,
    depth: nat,
    moves: Seq<GameMove>,
    from: int,
    alpha0: int,
    alpha: int,
    beta: int,
    best: int,
)
    requires
        0 <= from <= moves.len(),
        LOWER_LIM <= alpha0 < beta <= -LOWER_LIM,
        alpha == larger(alpha0, best),
        alpha < beta,
        best > alpha0 ==> best == best_reply(h, p, depth, moves.take(from)),
        best <= alpha0 ==> best_reply(h, p, depth, moves.take(from)) <= best,
    ensures
        within_window(
            scan_value(h, p, depth, moves, from, alpha, beta, best),
            best_reply(h, p, depth, moves),
            alpha0,
            beta,
        ),
    decreases depth, moves.len() - from + 1,
{
    let seen = best_reply(h, p, depth, moves.take(from));
    let worth = best_reply(h, p, depth, moves);
    if from >= moves.len() {
        assert(moves.take(from) =~= moves);
    } else {
        let m = moves[from];
        let child = p.apply(m);
        lemma_alphabeta_sound(h, child, depth, -beta, -alpha);
        lemma_negamax_bounds(h, child, depth);
        let reply = -alphabeta_value(h, child, depth, -beta, -alpha);
        let truth = reply_value(h, p, depth, m);
        assert(truth == -negamax(h, child, depth));
        assert(moves.take(from + 1).drop_last() =~= moves.take(from));
        assert(moves.take(from + 1).last() == m);
        let seen_now = best_reply(h, p, depth, moves.take(from + 1));
        assert(seen_now == larger(seen, truth));
        lemma_best_reply_is_max(h, p, depth, moves);
        assert(truth <= worth);
        lemma_best_reply_prefix(h, p, depth, moves, from + 1);
        lemma_best_reply_bounds(h, p, depth, moves);
        lemma_best_reply_bounds(h, p, depth, moves.take(from));
        let best_now = larger(best, reply);
        let alpha_now = larger(alpha, best_now);
        if reply >= h.win_score_spec() {
        } else if alpha_now >= beta {
        } else {
            lemma_scan_sound(h, p, depth, moves, from + 1, alpha0, alpha_now, beta, best_now);
        }
    }
}

/// The best of the first `n` moves is no better than the best of all.
pub proof fn lemma_best_reply_prefix(
    h: Heuristic,
    p: Position,
    depth: nat,
    moves: Seq<GameMove>,
    n: int,
)
    requires
        0 <= n <= moves.len(),
    ensures
        best_reply(h, p, depth, moves.take(n)) <= best_reply(h, p, depth, moves),
    decreases moves.len() - n,
{
    if n == moves.len() {
        assert(moves.take(n) =~= moves);
    } else {
        lemma_best_reply_prefix(h, p, depth, moves, n + 1);
        assert(moves.take(n + 1).drop_last() =~= moves.take(n));
    }
}

/// The first best move of the first `n + 1` moves is move `n` where it is
/// worth more than the first best of the first `n`, and that one where it
/// is not.
pub proof fn lemma_best_index_step(
    h: Heuristic,
    p: Position,
    depth: nat,
    moves: Seq<GameMove>,
    n: int,
)
    requires
        0 <= n < moves.len(),
    ensures
        0 <= best_index(h, p, depth, moves.take(n)) <= n,
        n > 0 ==> best_index(h, p, depth, moves.take(n)) < n,
        best_index(h, p, depth, moves.take(n + 1)) == if n > 0 && reply_value(
            h,
            p,
            depth,
            moves[n],
        ) <= reply_value(h, p, depth, moves[best_index(h, p, depth, moves.take(n))]) {
            best_index(h, p, depth, moves.take(n))
        } else {
            n
        },
    decreases n,
{
    assert(moves.take(n + 1).drop_last() =~= moves.take(n));
    assert(moves.take(n + 1).last() == moves[n]);
    if n > 0 {
        lemma_best_index_step(h, p, depth, moves, n - 1);
        let earlier = best_index(h, p, depth, moves.take(n));
        assert(moves.take(n + 1)[earlier] == moves[earlier]);
    }
}

/// Pruning loses nothing: with the full window, alpha-beta search returns
/// exactly what plain search returns.
pub proof fn lemma_alphabeta_exact(h: Heuristic, p: Position, depth: nat)
    ensures
        alphabeta_value(h, p, depth, LOWER_LIM as int, UPPER_LIM as int) == negamax(h, p, depth),
{
    lemma_alphabeta_sound(h, p, depth, LOWER_LIM as int, UPPER_LIM as int);
    lemma_alphabeta_bounds(h, p, depth, LOWER_LIM as int, UPPER_LIM as int);
    lemma_negamax_bounds(h, p, depth);
}

} // verus!
