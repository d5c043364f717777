//! Iterative deepening as mathematics: in which order the moves of a
//! position are searched in each pass, and which move each pass confirms.

use crate::ai::evaluation::Heuristic;
use crate::ai::tree::reply_value;
use crate::ai::tree_laws::lemma_negamax_bounds;
use crate::game::rules::Position;
use crate::game::GameMove;
use vstd::prelude::*;

verus! {

/// A move with what the last pass found it to be worth.
#[derive(Clone, Copy, Debug)]
pub struct Candidate {
    pub game_move: GameMove,
    pub eval: i32,
}

/// `sorted` with `item` put behind every candidate that is worth at least
/// as much.
pub open spec fn insert_desc(sorted: Seq<Candidate>, item: Candidate) -> Seq<Candidate>
    decreases sorted.len(),
{
    if sorted.len() == 0 || sorted.last().eval >= item.eval {
        sorted.push(item)
    } else {
        insert_desc(sorted.drop_last(), item).push(sorted.last())
    }
}

/// `items` with the best first; candidates of equal worth keep their order.
pub open spec fn sort_desc(items: Seq<Candidate>) -> Seq<Candidate>
    decreases items.len(),
{
    if items.len() == 0 {
        Seq::empty()
    } else {
        insert_desc(sort_desc(items.drop_last()), items.last())
    }
}

/// The moves as candidates that no pass has rated yet.
pub open spec fn unrated(moves: Seq<GameMove>) -> Seq<Candidate> {
    Seq::new(moves.len(), |i: int| Candidate { game_move: moves[i], eval: i32::MIN })
}

/// The candidates of `order`, in that order, each rated by what its move is
/// worth in `p` looked `depth` moves ahead.
pub open spec fn rated(h: Heuristic, p: Position, depth: nat, order: Seq<Candidate>) -> Seq<
    Candidate,
> {
    Seq::new(
        order.len(),
        |i: int|
            Candidate {
                game_move: order[i].game_move,
                eval: reply_value(h, p, depth, order[i].game_move) as i32,
            },
    )
}

/// The candidates after `passes` passes: pass `d` sorts what the pass
/// before it left, best first, and rates each move anew, looked `d` moves
/// ahead.
pub open spec fn candidates_after(h: Heuristic, p: Position, passes: nat) -> Seq<Candidate>
    decreases passes,
{
    if passes == 0 {
        unrated(p.legal_moves())
    } else {
        rated(h, p, passes, sort_desc(candidates_after(h, p, (passes - 1) as nat)))
    }
}

/// The place of the first candidate that is worth the most; 0 where there
/// is none.
pub open spec fn first_best(items: Seq<Candidate>) -> int
    decreases items.len(),
{
    if items.len() <= 1 {
        0
    } else {
        let earlier = first_best(items.drop_last());
        if items.last().eval > items[earlier].eval {
            items.len() - 1
        } else {
            earlier
        }
    }
}

/// The move that iterative deepening has confirmed once `passes` passes are
/// complete: the first legal move before any pass, then the first of the
/// best of the last complete pass.
pub open spec fn deepening_choice(h: Heuristic, p: Position, passes: nat) -> GameMove {
    if passes == 0 {
        p.legal_moves()[0]
    } else {
        candidates_after(h, p, passes)[first_best(candidates_after(h, p, passes))].game_move
    }
}

/// Whether every candidate is one of `moves`.
pub open spec fn drawn_from(items: Seq<Candidate>, moves: Seq<GameMove>) -> bool {
    forall|i: int| 0 <= i < items.len() ==> moves.contains((#[trigger] items[i]).game_move)
}

/// Putting a candidate in adds it and nothing else.
pub proof fn lemma_insert_desc_shape(sorted: Seq<Candidate>, item: Candidate, moves: Seq<GameMove>)
    requires
        drawn_from(sorted, moves),
        moves.contains(item.game_move),
    ensures
        insert_desc(sorted, item).len() == sorted.len() + 1,
        drawn_from(insert_desc(sorted, item), moves),
    decreases sorted.len(),
{
    if sorted.len() == 0 || sorted.last().eval >= item.eval {
        let all = sorted.push(item);
        assert forall|i: int| 0 <= i < all.len() implies moves.contains(
            (#[trigger] all[i]).game_move,
        ) by {
            if i < sorted.len() {
                assert(all[i] == sorted[i]);
            }
        }
    } else {
        let shorter = sorted.drop_last();
        assert forall|i: int| 0 <= i < shorter.len() implies moves.contains(
            (#[trigger] shorter[i]).game_move,
        ) by {
            assert(shorter[i] == sorted[i]);
        }
        lemma_insert_desc_shape(shorter, item, moves);
        let inner = insert_desc(shorter, item);
        let all = inner.push(sorted.last());
        assert forall|i: int| 0 <= i < all.len() implies moves.contains(
            (#[trigger] all[i]).game_move,
        ) by {
            if i < inner.len() {
                assert(all[i] == inner[i]);
            } else {
                assert(all[i] == sorted[sorted.len() - 1]);
            }
        }
    }
}

/// Sorting neither adds a candidate nor drops one.
pub proof fn lemma_sort_desc_shape(items: Seq<Candidate>, moves: Seq<GameMove>)
    requires
        drawn_from(items, moves),
    ensures
        sort_desc(items).len() == items.len(),
        drawn_from(sort_desc(items), moves),
    decreases items.len(),
{
    if items.len() > 0 {
        let shorter = items.drop_last();
        assert forall|i: int| 0 <= i < shorter.len() implies moves.contains(
            (#[trigger] shorter[i]).game_move,
        ) by {
            assert(shorter[i] == items[i]);
        }
        lemma_sort_desc_shape(shorter, moves);
        assert(moves.contains(items[items.len() - 1].game_move));
        lemma_insert_desc_shape(sort_desc(shorter), items.last(), moves);
    }
}

/// After every pass there is one candidate for each legal move, and every
/// candidate is a legal move.
pub proof fn lemma_candidates_shape(h: Heuristic, p: Position, passes: nat)
    ensures
        candidates_after(h, p, passes).len() == p.legal_moves().len(),
        drawn_from(candidates_after(h, p, passes), p.legal_moves()),
    decreases passes,
{
    let moves = p.legal_moves();
    if passes == 0 {
        let items = unrated(moves);
        assert forall|i: int| 0 <= i < items.len() implies moves.contains(
            (#[trigger] items[i]).game_move,
        ) by {
            assert(moves[i] == items[i].game_move);
        }
    } else {
        let before = candidates_after(h, p, (passes - 1) as nat);
        lemma_candidates_shape(h, p, (passes - 1) as nat);
        lemma_sort_desc_shape(before, moves);
        let order = sort_desc(before);
        let items = rated(h, p, passes, order);
        assert forall|i: int| 0 <= i < items.len() implies moves.contains(
            (#[trigger] items[i]).game_move,
        ) by {
            assert(items[i].game_move == order[i].game_move);
        }
    }
}

/// Putting a candidate in keeps every candidate that was there.
pub proof fn lemma_insert_desc_keeps(sorted: Seq<Candidate>, item: Candidate)
    ensures
        insert_desc(sorted, item).contains(item),
        forall|k: int|
            0 <= k < sorted.len() ==> insert_desc(sorted, item).contains(#[trigger] sorted[k]),
    decreases sorted.len(),
{
    let all = insert_desc(sorted, item);
    if sorted.len() == 0 || sorted.last().eval >= item.eval {
        assert(all[sorted.len() as int] == item);
        assert forall|k: int| 0 <= k < sorted.len() implies all.contains(
            #[trigger] sorted[k],
        ) by {
            assert(all[k] == sorted[k]);
        }
    } else {
        let shorter = sorted.drop_last();
        let inner = insert_desc(shorter, item);
        lemma_insert_desc_keeps(shorter, item);
        let at = choose|at: int| 0 <= at < inner.len() && inner[at] == item;
        assert(all[at] == item);
        assert forall|k: int| 0 <= k < sorted.len() implies all.contains(
            #[trigger] sorted[k],
        ) by {
            if k < shorter.len() {
                assert(shorter[k] == sorted[k]);
                let found = choose|found: int| 0 <= found < inner.len() && inner[found] == sorted[k];
                assert(all[found] == sorted[k]);
            } else {
                assert(all[inner.len() as int] == sorted[k]);
            }
        }
    }
}

/// Sorting keeps every candidate.
pub proof fn lemma_sort_desc_keeps(items: Seq<Candidate>)
    ensures
        forall|k: int| 0 <= k < items.len() ==> sort_desc(items).contains(#[trigger] items[k]),
    decreases items.len(),
{
    if items.len() > 0 {
        let shorter = items.drop_last();
        let before = sort_desc(shorter);
        let all = sort_desc(items);
        lemma_sort_desc_keeps(shorter);
        lemma_insert_desc_keeps(before, items.last());
        assert forall|k: int| 0 <= k < items.len() implies all.contains(#[trigger] items[k]) by {
            if k < shorter.len() {
                assert(shorter[k] == items[k]);
                let found = choose|found: int|
                    0 <= found < before.len() && before[found] == items[k];
                assert(all.contains(before[found]));
            }
        }
    }
}

/// Whether every one of `moves` is the move of a candidate.
pub open spec fn covers(items: Seq<Candidate>, moves: Seq<GameMove>) -> bool {
    forall|j: int|
        0 <= j < moves.len() ==> exists|i: int|
            0 <= i < items.len() && (#[trigger] items[i]).game_move == #[trigger] moves[j]
}

/// After every pass each legal move is the move of a candidate.
pub proof fn lemma_candidates_cover(h: Heuristic, p: Position, passes: nat)
    ensures
        covers(candidates_after(h, p, passes), p.legal_moves()),
    decreases passes,
{
    let moves = p.legal_moves();
    let items = candidates_after(h, p, passes);
    if passes == 0 {
        assert forall|j: int| 0 <= j < moves.len() implies exists|i: int|
            0 <= i < items.len() && (#[trigger] items[i]).game_move == #[trigger] moves[j] by {
            assert(items[j].game_move == moves[j]);
        }
    } else {
        let before = candidates_after(h, p, (passes - 1) as nat);
        let order = sort_desc(before);
        lemma_candidates_cover(h, p, (passes - 1) as nat);
        lemma_sort_desc_keeps(before);
        assert forall|j: int| 0 <= j < moves.len() implies exists|i: int|
            0 <= i < items.len() && (#[trigger] items[i]).game_move == #[trigger] moves[j] by {
            let was = choose|i: int|
                0 <= i < before.len() && (#[trigger] before[i]).game_move == moves[j];
            assert(order.contains(before[was]));
            let now = choose|i: int| 0 <= i < order.len() && order[i] == before[was];
            assert(items[now].game_move == moves[j]);
        }
    }
}

/// No candidate is worth more than the first best.
pub proof fn lemma_first_best_is_max(items: Seq<Candidate>)
    requires
        items.len() > 0,
    ensures
        0 <= first_best(items) < items.len(),
        forall|i: int|
            0 <= i < items.len() ==> (#[trigger] items[i]).eval <= items[first_best(items)].eval,
    decreases items.len(),
{
    if items.len() > 1 {
        let shorter = items.drop_last();
        lemma_first_best_is_max(shorter);
        let earlier = first_best(shorter);
        assert(shorter[earlier] == items[earlier]);
        assert forall|i: int| 0 <= i < items.len() implies (#[trigger] items[i]).eval
            <= items[first_best(items)].eval by {
            if i < shorter.len() {
                assert(shorter[i] == items[i]);
            }
        }
    }
}

/// What iterative deepening confirms is a legal move, and once a pass is
/// complete it is a best one: looked as far ahead as the last complete pass
/// looked, no legal move is worth more.
pub proof fn lemma_deepening_choice_is_best(h: Heuristic, p: Position, passes: nat)
    requires
        p.legal_moves().len() > 0,
    ensures
        p.legal_moves().contains(deepening_choice(h, p, passes)),
        passes >= 1 ==> forall|j: int|
            0 <= j < p.legal_moves().len() ==> #[trigger] reply_value(
                h,
                p,
                passes,
                p.legal_moves()[j],
            ) <= reply_value(h, p, passes, deepening_choice(h, p, passes)),
{
    let moves = p.legal_moves();
    if passes == 0 {
        assert(moves[0] == deepening_choice(h, p, passes));
    } else {
        let items = candidates_after(h, p, passes);
        let order = sort_desc(candidates_after(h, p, (passes - 1) as nat));
        lemma_candidates_shape(h, p, passes);
        lemma_candidates_cover(h, p, passes);
        lemma_first_best_is_max(items);
        let best = first_best(items);
        let chosen = deepening_choice(h, p, passes);
        assert(chosen == items[best].game_move);
        assert(moves.contains(items[best].game_move));
        assert forall|i: int| 0 <= i < items.len() implies (#[trigger] items[i]).eval
            == reply_value(h, p, passes, items[i].game_move) by {
            lemma_negamax_bounds(h, p.apply(order[i].game_move), passes);
            assert(items[i].game_move == order[i].game_move);
        }
        assert forall|j: int| 0 <= j < moves.len() implies #[trigger] reply_value(
            h,
            p,
            passes,
            moves[j],
        ) <= reply_value(h, p, passes, chosen) by {
            let i = choose|i: int|
                0 <= i < items.len() && (#[trigger] items[i]).game_move == moves[j];
            assert(items[i].eval <= items[best].eval);
        }
    }
}

/// Where the candidates from place `at` on are all worth less than `item`,
/// and the one before `at` is not, `item` goes to place `at`.
pub proof fn lemma_insert_desc_at(sorted: Seq<Candidate>, item: Candidate, at: int)
    requires
        0 <= at <= sorted.len(),
        forall|j: int| at <= j < sorted.len() ==> (#[trigger] sorted[j]).eval < item.eval,
        at > 0 ==> sorted[at - 1].eval >= item.eval,
    ensures
        insert_desc(sorted, item) == sorted.insert(at, item),
    decreases sorted.len(),
{
    if at == sorted.len() {
        assert(sorted.push(item) =~= sorted.insert(at, item));
    } else {
        let shorter = sorted.drop_last();
        assert(sorted[sorted.len() - 1].eval < item.eval);
        assert forall|j: int| at <= j < shorter.len() implies (#[trigger] shorter[j]).eval
            < item.eval by {
            assert(shorter[j] == sorted[j]);
        }
        lemma_insert_desc_at(shorter, item, at);
        assert(shorter.insert(at, item).push(sorted.last()) =~= sorted.insert(at, item));
    }
}

/// Puts `item` into `sorted` behind every candidate that is worth at least
/// as much.
pub fn insert_candidate(sorted: &mut Vec<Candidate>, item: Candidate)
    ensures
        final(sorted)@ == insert_desc(old(sorted)@, item),
{
    let mut at: usize = sorted.len();
    while at > 0 && sorted[at - 1].eval < item.eval
        invariant
            at <= sorted@.len(),
            sorted@ == old(sorted)@,
            forall|j: int| at <= j < sorted@.len() ==> (#[trigger] sorted@[j]).eval < item.eval,
        decreases at,
    {
        at -= 1;
    }
    proof {
        lemma_insert_desc_at(sorted@, item, at as int);
    }
    sorted.insert(at, item);
}

/// Sorts the candidates, the best first; candidates of equal worth keep
/// their order.
pub fn sort_candidates(candidates: &mut Vec<Candidate>)
    ensures
        final(candidates)@ == sort_desc(old(candidates)@),
{
    let mut sorted: Vec<Candidate> = Vec::with_capacity(candidates.len());
    let mut i: usize = 0;
    while i < candidates.len()
        invariant
            i <= candidates@.len(),
            candidates@ == old(candidates)@,
            sorted@ == sort_desc(candidates@.take(i as int)),
        decreases candidates.len() - i,
    {
        proof {
            assert(candidates@.take(i + 1).drop_last() == candidates@.take(i as int));
            assert(candidates@.take(i + 1).last() == candidates@[i as int]);
        }
        insert_candidate(&mut sorted, candidates[i]);
        i += 1;
    }
    assert(candidates@.take(candidates@.len() as int) == candidates@);
    *candidates = sorted;
}

/// The place of the first candidate that is worth the most.
pub fn first_best_index(candidates: &Vec<Candidate>) -> (at: usize)
    requires
        candidates@.len() > 0,
    ensures
        at == first_best(candidates@),
        at < candidates@.len(),
{
    let mut at: usize = 0;
    let mut i: usize = 1;
    assert(candidates@.take(1).drop_last().len() == 0);
    while i < candidates.len()
        invariant
            1 <= i <= candidates@.len(),
            at < i,
            at == first_best(candidates@.take(i as int)),
        decreases candidates.len() - i,
    {
        proof {
            assert(candidates@.take(i + 1).drop_last() == candidates@.take(i as int));
            assert(candidates@.take(i + 1).last() == candidates@[i as int]);
            assert(candidates@.take(i + 1)[at as int] == candidates@[at as int]);
        }
        if candidates[i].eval > candidates[at].eval {
            at = i;
        }
        i += 1;
    }
    assert(candidates@.take(candidates@.len() as int) == candidates@);
    at
}

} // verus!
