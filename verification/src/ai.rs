//! Players that choose a move by themselves.
//!
//! A search runs until it is done or until it sees the cancellation flag
//! set. It reads the flag after each move it has searched, never before: a
//! search that was cancelled hands back 0 and says so, and whoever called
//! it drops that result.

use crate::ai::evaluation::Heuristic;
use crate::ai::tree::{best_index, reply_value};
use crate::game::rules::Position;
use crate::game::{Board, GameMove, GameStatus};
use crate::rng::{clock_seed, next_in_range, seeded};
use std::sync::atomic::{AtomicBool, Ordering};
use std::sync::Arc;
use std::time::Duration;
use vstd::prelude::*;

pub mod deepening;
pub mod evaluation;
pub mod min_max_v0;
pub mod min_max_v1;
pub mod min_max_v2;
pub mod ordering;
pub mod session;
pub mod tree;
pub mod tree_laws;

pub use crate::ai::min_max_v0::MinMaxV0;
pub use crate::ai::min_max_v1::MinMaxV1;
pub use crate::ai::min_max_v2::MinMaxV2;

verus! {

/// What the search of one position came to.
#[derive(Clone, Copy, Debug)]
pub struct Score {
    /// What the position is worth; 0 where the search was cancelled.
    pub value: i32,
    /// Whether the search saw the cancellation flag set and gave up.
    pub cancelled: bool,
}

/// What the search of the legal moves of one position came to.
#[derive(Clone, Copy, Debug)]
pub struct RootChoice {
    /// The first of the examined moves that is worth the most; the first
    /// legal move where none was examined.
    pub best_move: GameMove,
    /// What `best_move` is worth; `i32::MIN` where none was examined.
    pub eval: i32,
    /// How many legal moves were searched in full before the search ended.
    pub examined: usize,
}

/// The first of the first `examined` legal moves of `p` that is worth the
/// most, each looked `depth` moves ahead; the first legal move where
/// `examined` is 0.
pub open spec fn first_best_of(h: Heuristic, p: Position, depth: nat, examined: int) -> GameMove {
    p.legal_moves()[best_index(h, p, depth, p.legal_moves().take(examined))]
}

impl RootChoice {
    /// Whether this is what a search of the legal moves of `p` comes to,
    /// each move looked `depth` moves ahead, when it ends after `examined`
    /// moves.
    pub open spec fn holds_for(self, h: Heuristic, p: Position, depth: nat) -> bool {
        let moves = p.legal_moves();
        let seen = moves.take(self.examined as int);
        &&& self.examined <= moves.len()
        &&& 0 <= best_index(h, p, depth, seen) < moves.len()
        &&& self.best_move == first_best_of(h, p, depth, self.examined as int)
        &&& self.examined == 0 ==> self.eval == i32::MIN
        &&& self.examined > 0 ==> self.eval == reply_value(h, p, depth, self.best_move)
    }

    /// Whether every legal move was examined.
    pub open spec fn complete(self, p: Position) -> bool {
        self.examined == p.legal_moves().len()
    }
}

/// Whether the search has been asked to stop. The flag is shared with
/// whoever started the search, so nothing is known of what is read.
pub fn cancel_requested(cancel_signal: &AtomicBool) -> bool {
    cancel_signal.load(Ordering::Relaxed)
}

/// Tells whoever started the search that it is over.
pub fn signal_done(cancel_signal: &AtomicBool) {
    cancel_signal.store(true, Ordering::Relaxed);
}

/// A player that finds a move for the player to move.
pub trait AIOpponent: Send + Sync {
    /// Searches for a move and returns early once `cancel_signal` is set.
    /// Sets `cancel_signal` itself when it is done. The remaining time is a
    /// hint that a player may ignore.
    fn search(
        &self,
        cancel_signal: Arc<AtomicBool>,
        board: Board,
        remaining_time: Option<Duration>,
    ) -> (chosen: GameMove)
        requires
            board@.position.cards_distinct(),
            board@.position.status() == GameStatus::Playing,
        ensures
            board@.position.legal_moves().contains(chosen),
    ;
}

/// Search determinism: two searches of the same position to the same
/// depth that both examined every legal move chose the same move and found
/// it worth the same, whether or not they pruned.
pub proof fn lemma_complete_searches_agree(
    first: RootChoice,
    second: RootChoice,
    h: Heuristic,
    p: Position,
    depth: nat,
)
    requires
        first.holds_for(h, p, depth),
        second.holds_for(h, p, depth),
        first.complete(p),
        second.complete(p),
    ensures
        first.best_move == second.best_move,
        p.legal_moves().len() > 0 ==> first.eval == second.eval,
        first.best_move == crate::ai::tree::best_move(h, p, depth),
{
    assert(p.legal_moves().take(p.legal_moves().len() as int) =~= p.legal_moves());
}

/// Plays any legal move, each with the same chance.
#[derive(Default)]
pub struct RandomMover;

impl RandomMover {
    /// The legal move of `board` at place `pick`.
    pub fn pick_move(board: &Board, pick: usize) -> (chosen: GameMove)
        requires
            pick < board@.position.legal_moves().len(),
        ensures
            chosen == board@.position.legal_moves()[pick as int],
    {
        let legal_moves = board.legal_moves();
        legal_moves[pick]
    }
}

impl AIOpponent for RandomMover {
    fn search(
        &self,
        cancel_signal: Arc<AtomicBool>,
        board: Board,
        _remaining_time: Option<Duration>,
    ) -> (chosen: GameMove) {
        signal_done(&cancel_signal);
        let count = board.legal_moves().len();
        let mut rng = seeded(clock_seed());
        let pick = next_in_range(&mut rng, 0, count);
        RandomMover::pick_move(&board, pick)
    }
}

/// Plays the first legal move.
#[derive(Default)]
pub struct Dummy;

impl AIOpponent for Dummy {
    fn search(
        &self,
        cancel_signal: Arc<AtomicBool>,
        board: Board,
        _remaining_time: Option<Duration>,
    ) -> (chosen: GameMove)
        ensures
            chosen == board@.position.legal_moves()[0],
    {
        signal_done(&cancel_signal);
        let legal_moves = board.legal_moves();
        legal_moves[0]
    }
}

/// The players that there are.
#[derive(Clone, Copy, PartialEq, Eq, Debug, Hash, Structural)]
pub enum AIVersion {
    Dummy,
    Random,
    MinMaxV0,
    MinMaxV1,
    MinMaxV2,
}

impl AIVersion {
    /// The name of each player.
    pub open spec fn name_spec(self) -> Seq<char> {
        match self {
            AIVersion::Dummy => "Dummy"@,
            AIVersion::Random => "Random"@,
            AIVersion::MinMaxV0 => "MinMaxV0"@,
            AIVersion::MinMaxV1 => "MinMaxV1"@,
            AIVersion::MinMaxV2 => "MinMaxV2"@,
        }
    }

    /// Every player, in the order in which they are declared.
    pub fn all() -> (versions: [AIVersion; 5])
        ensures
            versions@ == seq![
                AIVersion::Dummy,
                AIVersion::Random,
                AIVersion::MinMaxV0,
                AIVersion::MinMaxV1,
                AIVersion::MinMaxV2,
            ],
    {
        let versions = [
            AIVersion::Dummy,
            AIVersion::Random,
            AIVersion::MinMaxV0,
            AIVersion::MinMaxV1,
            AIVersion::MinMaxV2,
        ];
        assert(versions@ =~= seq![
            AIVersion::Dummy,
            AIVersion::Random,
            AIVersion::MinMaxV0,
            AIVersion::MinMaxV1,
            AIVersion::MinMaxV2,
        ]);
        versions
    }

    /// The player's name.
    pub fn name(&self) -> (name: String)
        ensures
            name@ == self.name_spec(),
    {
        match self {
            AIVersion::Dummy => "Dummy".to_owned(),
            AIVersion::Random => "Random".to_owned(),
            AIVersion::MinMaxV0 => "MinMaxV0".to_owned(),
            AIVersion::MinMaxV1 => "MinMaxV1".to_owned(),
            AIVersion::MinMaxV2 => "MinMaxV2".to_owned(),
        }
    }

    /// Lets the player of this kind search `board` for a move, where there
    /// is one to find: `None` where the game is over or the board holds a
    /// card twice.
    pub fn choose_move(
        &self,
        cancel_signal: Arc<AtomicBool>,
        board: Board,
        remaining_time: Option<Duration>,
    ) -> (chosen: Option<GameMove>)
        ensures
            chosen is Some <==> board@.position.cards_distinct() && board@.position.status()
                == GameStatus::Playing,
            chosen matches Some(game_move) ==> board@.position.legal_moves().contains(game_move),
    {
        if board.cards_distinct() && board.status() == GameStatus::Playing {
            Some(self.search(cancel_signal, board, remaining_time))
        } else {
            None
        }
    }

    /// Lets the player of this kind, set up as it is by default, search
    /// `board` for a move.
    pub fn search(
        &self,
        cancel_signal: Arc<AtomicBool>,
        board: Board,
        remaining_time: Option<Duration>,
    ) -> (chosen: GameMove)
        requires
            board@.position.cards_distinct(),
            board@.position.status() == GameStatus::Playing,
        ensures
            board@.position.legal_moves().contains(chosen),
            *self == AIVersion::Dummy ==> chosen == board@.position.legal_moves()[0],
    {
        match self {
            AIVersion::Dummy => Dummy.search(cancel_signal, board, remaining_time),
            AIVersion::Random => RandomMover.search(cancel_signal, board, remaining_time),
            AIVersion::MinMaxV0 => MinMaxV0::default().search(
                cancel_signal,
                board,
                remaining_time,
            ),
            AIVersion::MinMaxV1 => MinMaxV1::default().search(
                cancel_signal,
                board,
                remaining_time,
            ),
            AIVersion::MinMaxV2 => MinMaxV2::default().search(
                cancel_signal,
                board,
                remaining_time,
            ),
        }
    }
}

} // verus!
