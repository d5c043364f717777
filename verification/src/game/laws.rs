//! What holds of the rules: theorems about [`Position`] and [`BoardState`].

use crate::cards::{all_distinct, lemma_steps_are_short, step, Card};
use crate::game::hashing::position_hash;
use crate::game::rules::{count_upto, standard_squares, BoardState, Position};
use crate::game::{GameMove, Piece, Pos};
use vstd::prelude::*;

verus! {

/// Every move that `step_moves` lists goes by one of the given steps to a
/// square on the board that holds no piece of the player to move.
proof fn lemma_step_moves_sound(p: Position, start: Pos, card: Card, steps: Seq<Pos>, i: int)
    requires
        0 <= i < p.step_moves(start, card, steps).len(),
    ensures
        exists|k: int|
            {
                &&& 0 <= k < steps.len()
                &&& (#[trigger] start.offset_spec(steps[k])).in_bounds_spec()
                &&& !p.friendly(start.offset_spec(steps[k]))
                &&& p.step_moves(start, card, steps)[i] == p.move_of(
                    card,
                    start,
                    start.offset_spec(steps[k]),
                )
            },
    decreases steps.len(),
{
    let earlier = p.step_moves(start, card, steps.drop_last());
    if i < earlier.len() {
        lemma_step_moves_sound(p, start, card, steps.drop_last(), i);
        let k = choose|k: int|
            {
                &&& 0 <= k < steps.drop_last().len()
                &&& (#[trigger] start.offset_spec(steps.drop_last()[k])).in_bounds_spec()
                &&& !p.friendly(start.offset_spec(steps.drop_last()[k]))
                &&& earlier[i] == p.move_of(card, start, start.offset_spec(steps.drop_last()[k]))
            };
        assert(steps.drop_last()[k] == steps[k]);
        assert(start.offset_spec(steps[k]).in_bounds_spec());
    } else {
        let k = steps.len() - 1;
        assert(start.offset_spec(steps[k]).in_bounds_spec());
    }
}

/// Every allowed step shows up in what `step_moves` lists.
proof fn lemma_step_moves_complete(p: Position, start: Pos, card: Card, steps: Seq<Pos>, k: int)
    requires
        0 <= k < steps.len(),
        start.offset_spec(steps[k]).in_bounds_spec(),
        !p.friendly(start.offset_spec(steps[k])),
    ensures
        p.step_moves(start, card, steps).contains(
            p.move_of(card, start, start.offset_spec(steps[k])),
        ),
    decreases steps.len(),
{
    let earlier = p.step_moves(start, card, steps.drop_last());
    let all = p.step_moves(start, card, steps);
    let wanted = p.move_of(card, start, start.offset_spec(steps[k]));
    if k < steps.len() - 1 {
        lemma_step_moves_complete(p, start, card, steps.drop_last(), k);
        let i = choose|i: int| 0 <= i < earlier.len() && earlier[i] == wanted;
        assert(all[i] == wanted);
    } else {
        assert(all[all.len() - 1] == wanted);
    }
}

/// A step of a card from a square of the board, taken back, is the step.
proof fn lemma_step_between(start: Pos, offset: Pos)
    requires
        start.in_bounds_spec(),
        -2 <= offset.0 <= 2,
        -2 <= offset.1 <= 2,
    ensures
        step(
            start.offset_spec(offset).0 - start.0,
            start.offset_spec(offset).1 - start.1,
        ) == offset,
{
}

/// Legal move soundness: every move listed for a square starts there and is
/// legal. Its destination is on the board, is not occupied by a piece of the
/// mover, and lies one step of one of the mover's two cards away, mirrored
/// for blue.
pub proof fn lemma_moves_from_sound(p: Position, start: Pos, i: int)
    requires
        0 <= i < p.moves_from(start).len(),
    ensures
        p.moves_from(start)[i].start_pos == start,
        p.is_legal_move(p.moves_from(start)[i]),
{
    let first = p.step_moves(start, p.hand().0, p.steps(p.hand().0));
    let card = if i < first.len() {
        p.hand().0
    } else {
        p.hand().1
    };
    let j = if i < first.len() {
        i
    } else {
        i - first.len()
    };
    let steps = p.steps(card);
    lemma_step_moves_sound(p, start, card, steps, j);
    let k = choose|k: int|
        {
            &&& 0 <= k < steps.len()
            &&& (#[trigger] start.offset_spec(steps[k])).in_bounds_spec()
            &&& !p.friendly(start.offset_spec(steps[k]))
            &&& p.step_moves(start, card, steps)[j] == p.move_of(
                card,
                start,
                start.offset_spec(steps[k]),
            )
        };
    lemma_steps_are_short(card);
    lemma_step_between(start, steps[k]);
    let end = start.offset_spec(steps[k]);
    assert(steps[k] == step(end.0 - start.0, end.1 - start.1));
    assert(p.steps(card).contains(step(end.0 - start.0, end.1 - start.1)));
}

/// Every legal move from a square is among the moves listed for it.
pub proof fn lemma_moves_from_complete(p: Position, card: Card, start: Pos, end: Pos)
    requires
        p.legal(card, start, end),
    ensures
        p.moves_from(start).contains(p.move_of(card, start, end)),
{
    let steps = p.steps(card);
    let offset = step(end.0 - start.0, end.1 - start.1);
    let k = choose|k: int| 0 <= k < steps.len() && steps[k] == offset;
    assert(start.offset_spec(steps[k]) == end);
    lemma_step_moves_complete(p, start, card, steps, k);
    let wanted = p.move_of(card, start, end);
    let first = p.step_moves(start, p.hand().0, p.steps(p.hand().0));
    let second = p.step_moves(start, p.hand().1, p.steps(p.hand().1));
    if card == p.hand().0 {
        let i = choose|i: int| 0 <= i < first.len() && first[i] == wanted;
        assert((first + second)[i] == wanted);
    } else {
        let i = choose|i: int| 0 <= i < second.len() && second[i] == wanted;
        assert((first + second)[first.len() + i] == wanted);
    }
}

/// A move among those of the first `n` squares is among those of one of
/// these squares.
proof fn lemma_moves_upto_origin(p: Position, n: int, i: int)
    requires
        0 <= n <= 25,
        0 <= i < p.moves_upto(n).len(),
    ensures
        exists|square: int, j: int|
            {
                &&& 0 <= square < n
                &&& 0 <= j < p.moves_from(Pos::from_index_spec(square)).len()
                &&& p.moves_upto(n)[i] == #[trigger] p.moves_from(Pos::from_index_spec(square))[j]
            },
    decreases n,
{
    let earlier = p.moves_upto(n - 1);
    if i < earlier.len() {
        lemma_moves_upto_origin(p, n - 1, i);
    } else {
        let square = n - 1;
        let j = i - earlier.len();
        assert(p.moves_upto(n)[i] == p.moves_from(Pos::from_index_spec(square))[j]);
    }
}

/// The moves of the first `n` squares hold those of each of these squares.
proof fn lemma_moves_upto_holds(p: Position, n: int, square: int, j: int)
    requires
        0 <= square < n <= 25,
        0 <= j < p.moves_from(Pos::from_index_spec(square)).len(),
    ensures
        p.moves_upto(n).contains(p.moves_from(Pos::from_index_spec(square))[j]),
    decreases n,
{
    let earlier = p.moves_upto(n - 1);
    let wanted = p.moves_from(Pos::from_index_spec(square))[j];
    if square < n - 1 {
        lemma_moves_upto_holds(p, n - 1, square, j);
        let i = choose|i: int| 0 <= i < earlier.len() && earlier[i] == wanted;
        assert(p.moves_upto(n)[i] == wanted);
    } else {
        assert(p.moves_upto(n)[earlier.len() + j] == wanted);
    }
}

/// Every move of [`Position::legal_moves`] is legal.
pub proof fn lemma_legal_moves_sound(p: Position, i: int)
    requires
        0 <= i < p.legal_moves().len(),
    ensures
        p.is_legal_move(p.legal_moves()[i]),
{
    lemma_moves_upto_origin(p, 25, i);
    let (square, j) = choose|square: int, j: int|
        {
            &&& 0 <= square < 25
            &&& 0 <= j < p.moves_from(Pos::from_index_spec(square)).len()
            &&& p.legal_moves()[i] == #[trigger] p.moves_from(Pos::from_index_spec(square))[j]
        };
    lemma_moves_from_sound(p, Pos::from_index_spec(square), j);
}

/// Every legal move is one of [`Position::legal_moves`].
pub proof fn lemma_legal_moves_complete(p: Position, m: GameMove)
    requires
        p.is_legal_move(m),
    ensures
        p.legal_moves().contains(m),
{
    lemma_moves_from_complete(p, m.used_card, m.start_pos, m.end_pos);
    let from_start = p.moves_from(m.start_pos);
    let j = choose|j: int| 0 <= j < from_start.len() && from_start[j] == m;
    let square = m.start_pos.index_spec();
    assert(Pos::from_index_spec(square) == m.start_pos);
    lemma_moves_upto_holds(p, 25, square, j);
}

/// Card carousel conservation: a move played with a card of the mover's hand
/// leaves the same five cards in play, only held differently.
pub proof fn lemma_cards_conserved(p: Position, m: GameMove)
    requires
        p.holds(m.used_card),
    ensures
        p.apply(m).card_multiset() == p.card_multiset(),
{
    assert(p.apply(m).card_multiset() =~= p.card_multiset());
}

/// Whatever is played, five different cards stay five different cards.
pub proof fn lemma_cards_stay_distinct(p: Position, m: GameMove)
    requires
        p.cards_distinct(),
    ensures
        p.apply(m).cards_distinct(),
{
    let c = p.cards();
    assert(c[0] != c[1] && c[0] != c[2] && c[0] != c[3] && c[0] != c[4]);
    assert(c[1] != c[2] && c[1] != c[3] && c[1] != c[4]);
    assert(c[2] != c[3] && c[2] != c[4]);
    assert(c[3] != c[4]);
}

/// Undo inverse law, for positions: where the five cards differ and nobody
/// has won, taking a legal move back gives the position it was played in.
pub proof fn lemma_revert_restores(p: Position, m: GameMove)
    requires
        p.wf(),
        p.cards_distinct(),
        p.winner is None,
        p.is_legal_move(m),
    ensures
        p.apply(m).revert(m) == p,
{
    let c = p.cards();
    assert(c[0] != c[1] && c[0] != c[2] && c[0] != c[3] && c[0] != c[4]);
    assert(c[1] != c[2] && c[1] != c[3] && c[1] != c[4]);
    assert(c[2] != c[3] && c[2] != c[4]);
    assert(c[3] != c[4]);
    assert(m.start_pos != m.end_pos);
    assert(p.apply(m).revert(m).squares =~= p.squares);
    assert(p.apply(m).revert(m) =~= p);
}

/// Undo inverse law: where the five cards differ and nobody has won, playing
/// a legal move and taking it back restores the state in every part, and
/// with it the state hash.
pub proof fn lemma_undo_restores(state: BoardState, m: GameMove)
    requires
        state.wf(),
        state.position.cards_distinct(),
        state.position.winner is None,
        state.position.is_legal_move(m),
    ensures
        state.apply(m).undo() == state,
        position_hash(state.apply(m).undo().position) == position_hash(state.position),
{
    lemma_revert_restores(state.position, m);
    assert(state.history.push(m).drop_last() =~= state.history);
    assert(state.apply(m).undo() =~= state);
}

/// Legal play keeps a state well formed and its five cards different.
pub proof fn lemma_play_keeps_shape(start: BoardState, moves: Seq<GameMove>)
    requires
        start.wf(),
        start.position.cards_distinct(),
        start.play(moves) is Some,
    ensures
        start.play(moves).unwrap().wf(),
        start.play(moves).unwrap().position.cards_distinct(),
        start.play(moves).unwrap().history == start.history + moves,
        start.play(moves).unwrap().default_start == start.default_start,
        start.play(moves).unwrap().initial_squares == start.initial_squares,
        start.play(moves).unwrap().initial_cards == start.initial_cards,
    decreases moves.len(),
{
    if moves.len() == 0 {
        assert(start.history + moves =~= start.history);
    } else {
        lemma_play_keeps_shape(start, moves.drop_last());
        let before = start.play(moves.drop_last()).unwrap();
        lemma_cards_stay_distinct(before.position, moves.last());
        assert(before.history.push(moves.last()) =~= start.history + moves);
    }
}

/// A state that legal play has reached holds five different cards.
pub proof fn lemma_reachable_cards_distinct(state: BoardState)
    requires
        state.reachable(),
    ensures
        state.position.cards_distinct(),
{
    let opening = state.opening();
    assert(opening.position.cards() =~= state.initial_cards);
    lemma_play_keeps_shape(opening, state.history);
}

/// A game about to begin with five different cards is reachable.
pub proof fn lemma_start_reachable(
    default_start: bool,
    squares: Seq<Option<Piece>>,
    cards: Seq<Card>,
)
    requires
        squares.len() == 25,
        cards.len() == 5,
        all_distinct(cards),
        default_start ==> squares == standard_squares(),
    ensures
        BoardState::start(default_start, squares, cards).reachable(),
{
}

/// A legal move leads from a reachable state to a reachable state.
pub proof fn lemma_legal_move_keeps_reachable(state: BoardState, m: GameMove)
    requires
        state.reachable(),
        state.position.is_legal_move(m),
    ensures
        state.apply(m).reachable(),
{
    let after = state.apply(m);
    assert(after.history.drop_last() =~= state.history);
    assert(after.opening() == state.opening());
}

/// Taking the last move back leads to the state before it: where legal
/// play has reached a state and nobody had won before its last move, undoing
/// that move gives the state that the moves before it lead to, which legal
/// play has reached too.
pub proof fn lemma_undo_goes_back(state: BoardState)
    requires
        state.reachable(),
        state.history.len() > 0,
        state.opening().play(state.history.drop_last()).unwrap().position.winner is None,
    ensures
        state.undo() == state.opening().play(state.history.drop_last()).unwrap(),
        state.undo().reachable(),
{
    let opening = state.opening();
    let before = opening.play(state.history.drop_last()).unwrap();
    assert(opening.position.cards() =~= state.initial_cards);
    lemma_play_keeps_shape(opening, state.history.drop_last());
    assert(opening.history + state.history.drop_last() =~= state.history.drop_last());
    lemma_undo_restores(before, state.history.last());
}

/// Putting `content` on square `at` changes the count of a piece by what
/// leaves the square and what comes to it.
proof fn lemma_count_after_update(
    squares: Seq<Option<Piece>>,
    at: int,
    content: Option<Piece>,
    piece: Piece,
    n: int,
)
    requires
        0 <= at < squares.len(),
        0 <= n <= squares.len(),
    ensures
        count_upto(squares.update(at, content), piece, n) == count_upto(squares, piece, n) - (if at
            < n && squares[at] == Some(piece) {
            1int
        } else {
            0int
        }) + (if at < n && content == Some(piece) {
            1int
        } else {
            0int
        }),
    decreases n,
{
    if n > 0 {
        lemma_count_after_update(squares, at, content, piece, n - 1);
    }
}

/// A legal move adds no piece: it takes the captured piece off the board
/// and leaves the count of every other piece as it was.
pub proof fn lemma_move_adds_no_piece(p: Position, m: GameMove, piece: Piece)
    requires
        p.wf(),
        p.is_legal_move(m),
    ensures
        p.apply(m).count(piece) == p.count(piece) - (if m.captured_piece == Some(piece) {
            1int
        } else {
            0int
        }),
{
    let lifted = p.squares.update(m.start_pos.index_spec(), None);
    lemma_count_after_update(p.squares, m.start_pos.index_spec(), None, piece, 25);
    lemma_count_after_update(lifted, m.end_pos.index_spec(), Some(m.moved_piece), piece, 25);
    assert(m.start_pos != m.end_pos);
    assert(m.start_pos.index_spec() != m.end_pos.index_spec());
}

/// Legal play adds no piece to the board.
pub proof fn lemma_play_adds_no_piece(start: BoardState, moves: Seq<GameMove>, piece: Piece)
    requires
        start.wf(),
        start.position.cards_distinct(),
        start.play(moves) is Some,
    ensures
        start.play(moves).unwrap().position.count(piece) <= start.position.count(piece),
    decreases moves.len(),
{
    if moves.len() > 0 {
        lemma_play_adds_no_piece(start, moves.drop_last(), piece);
        lemma_play_keeps_shape(start, moves.drop_last());
        let before = start.play(moves.drop_last()).unwrap();
        lemma_move_adds_no_piece(before.position, moves.last(), piece);
    }
}

/// The standard layout holds one sensei of each colour.
pub proof fn lemma_standard_senseis()
    ensures
        count_upto(standard_squares(), Piece::RedSensei, 25) == 1,
        count_upto(standard_squares(), Piece::BlueSensei, 25) == 1,
{
    reveal_with_fuel(count_upto, 26);
}

/// A game that began from the standard layout never holds more than one
/// sensei of either colour.
pub proof fn lemma_at_most_one_sensei(state: BoardState)
    requires
        state.reachable(),
        state.default_start,
    ensures
        state.position.count(Piece::RedSensei) <= 1,
        state.position.count(Piece::BlueSensei) <= 1,
{
    let opening = state.opening();
    assert(opening.position.cards() =~= state.initial_cards);
    lemma_standard_senseis();
    lemma_play_adds_no_piece(opening, state.history, Piece::RedSensei);
    lemma_play_adds_no_piece(opening, state.history, Piece::BlueSensei);
}

} // verus!
