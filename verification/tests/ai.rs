use onitama::ai::deepening::{first_best_index, insert_candidate, sort_candidates, Candidate};
use onitama::ai::evaluation::{evaluation, Heuristic, PIECE_SQUARE_TABLE};
use onitama::ai::min_max_v2::alphabeta;
use onitama::ai::ordering::reorder_moves;
use onitama::ai::session::SearchPhase;
use onitama::ai::tree::{LOWER_LIM, UPPER_LIM};
use onitama::ai::{
    cancel_requested, signal_done, AIOpponent, AIVersion, Dummy, MinMaxV0, MinMaxV1, MinMaxV2,
    RandomMover,
};
use onitama::cards;
use onitama::game::{Board, GameMove, Piece, Pos};
use std::sync::atomic::{AtomicBool, Ordering};
use std::sync::Arc;

const MATERIAL_WIN: i32 = i32::MAX / 2;

/// Red to move; the disciple on `v` takes the blue sensei on `l` with Tiger.
fn win_in_one() -> Board {
    Board::load_game("11.11 ..3.. ..... ..2.. 00.00 BXLUT Brs Lhl").unwrap()
}

fn winning_move() -> GameMove {
    GameMove {
        start_pos: Pos(4, 1),
        end_pos: Pos(2, 1),
        used_card: cards::TIGER,
        transferred_card: cards::ELEPHANT,
        moved_piece: Piece::RedDisciple,
        captured_piece: Some(Piece::BlueSensei),
    }
}

fn some_positions() -> Vec<Board> {
    vec![
        Board::default(),
        win_in_one(),
        Board::load_game("BCQKD Bup Qbg").unwrap(),
        Board::load_game("11.11 ..3.. ..... ..2.. 00.00 BXLUT Brs").unwrap(),
        Board::load_game(".1.3. ..0.. .1.2. ..... 0...0 GHMOR").unwrap(),
    ]
}

fn quiet(flag: bool) -> Arc<AtomicBool> {
    Arc::new(AtomicBool::new(flag))
}

#[test]
fn limits_are_half_the_range() {
    assert_eq!(LOWER_LIM, i32::MIN / 2);
    assert_eq!(UPPER_LIM, i32::MAX / 2);
    assert_eq!(Heuristic::Material.win_score(), MATERIAL_WIN);
    assert_eq!(Heuristic::Positional.win_score(), 9999);
}

#[test]
fn evaluation_counts_material() {
    let board = Board::default();
    assert_eq!(evaluation(&board, true, Heuristic::Material), 0);
    assert_eq!(evaluation(&board, false, Heuristic::Material), 0);
    assert_eq!(MinMaxV0::board_eval(&board, true), 0);
    let ahead = Board::load_game(".1.3. ..0.. .1.2. ..... 0...0 GHMOR").unwrap();
    // red: three disciples and the sensei; blue: two disciples and the sensei
    assert_eq!(evaluation(&ahead, true, Heuristic::Material), 100);
    assert_eq!(evaluation(&ahead, false, Heuristic::Material), -100);
    assert_eq!(MinMaxV0::board_eval(&ahead, false), -100);
}

#[test]
fn evaluation_counts_squares() {
    assert_eq!(PIECE_SQUARE_TABLE[12], 10);
    assert_eq!(PIECE_SQUARE_TABLE[5], 1);
    assert_eq!(PIECE_SQUARE_TABLE[24], 0);
    let board = Board::load_game("BCQKD Bup").unwrap();
    // the red disciple on p stands on a square that counts 1
    assert_eq!(evaluation(&board, true, Heuristic::Positional), 1);
    assert_eq!(evaluation(&board, false, Heuristic::Positional), -1);
    assert_eq!(evaluation(&board, true, Heuristic::Material), 0);
    let ahead = Board::load_game(".1.3. ..0.. .1.2. ..... 0...0 GHMOR").unwrap();
    // red: 400 + 5 (h) + 5 (n); blue: 300 + 5 (l)
    assert_eq!(evaluation(&ahead, true, Heuristic::Positional), 105);
    assert_eq!(evaluation(&ahead, false, Heuristic::Positional), -105);
}

#[test]
fn a_decided_game_counts_as_lost_for_the_player_to_move() {
    let mut board = win_in_one();
    board.make_move(cards::TIGER, Pos(4, 1), Pos(2, 1)).unwrap();
    assert_eq!(board.winner(), Some(true));
    assert_eq!(evaluation(&board, false, Heuristic::Material), -MATERIAL_WIN);
    assert_eq!(evaluation(&board, true, Heuristic::Material), -MATERIAL_WIN);
    assert_eq!(evaluation(&board, false, Heuristic::Positional), -9999);
}

#[test]
fn a_stalemate_counts_nothing() {
    let board = Board::load_game("2...3 0.... 0.... 0.... 0.... THBCQ").unwrap();
    assert_eq!(evaluation(&board, true, Heuristic::Material), 0);
    assert_eq!(evaluation(&board, true, Heuristic::Positional), 0);
    let cancel = AtomicBool::new(false);
    let mut searched = board.clone();
    let score = alphabeta(&cancel, &mut searched, Heuristic::Positional, 3, LOWER_LIM, UPPER_LIM);
    assert_eq!(score.value, 0);
    assert!(!score.cancelled);
}

#[test]
fn the_winning_move_is_credited_to_the_mover() {
    let cancel = AtomicBool::new(false);
    let mut board = win_in_one();
    let before = board.clone();
    let leaf = alphabeta(&cancel, &mut board, Heuristic::Positional, 0, LOWER_LIM, UPPER_LIM);
    assert_eq!(leaf.value, 0);
    let one = alphabeta(&cancel, &mut board, Heuristic::Positional, 1, LOWER_LIM, UPPER_LIM);
    assert_eq!(one.value, 9999);
    assert!(!one.cancelled);
    let three = alphabeta(&cancel, &mut board, Heuristic::Material, 3, LOWER_LIM, UPPER_LIM);
    assert_eq!(three.value, MATERIAL_WIN);
    let plain = MinMaxV0::new(1).minmax(&cancel, &mut board, 0);
    assert_eq!(plain.value, MATERIAL_WIN);
    assert_eq!(board, before);
    // one move earlier blue is to move and can keep out of the capture
    let mut earlier = Board::load_game("11.11 ..3.. ..... ..2.. 00.00 BXLUT Brs").unwrap();
    let two = MinMaxV0::new(2).minmax(&cancel, &mut earlier, 0);
    assert!(two.value > -MATERIAL_WIN);
    // after the capture the game is over however far the search may look
    board.make_move(cards::TIGER, Pos(4, 1), Pos(2, 1)).unwrap();
    let over = alphabeta(&cancel, &mut board, Heuristic::Positional, 4, LOWER_LIM, UPPER_LIM);
    assert_eq!(over.value, -9999);
    let over = MinMaxV0::new(3).minmax(&cancel, &mut board, 0);
    assert_eq!(over.value, -MATERIAL_WIN);
}

#[test]
fn minimax_finds_the_win_in_one() {
    let cancel = AtomicBool::new(false);
    for depth in 1..4 {
        let mut board = win_in_one();
        let before = board.clone();
        let count = board.legal_moves().len();
        let choice = MinMaxV0::new(depth).search_root(&cancel, &mut board);
        assert_eq!(choice.best_move, winning_move());
        assert_eq!(choice.eval, MATERIAL_WIN);
        assert_eq!(choice.examined, count);
        assert_eq!(board, before);
    }
}

#[test]
fn alphabeta_returns_what_minimax_returns() {
    let cancel = AtomicBool::new(false);
    for mut board in some_positions() {
        for depth in 0..4 {
            let plain = MinMaxV0::new(depth.max(1)).minmax(
                &cancel,
                &mut board,
                if depth == 0 { 1 } else { 0 },
            );
            let pruned = alphabeta(
                &cancel,
                &mut board,
                Heuristic::Material,
                depth,
                LOWER_LIM,
                UPPER_LIM,
            );
            assert!(!plain.cancelled && !pruned.cancelled);
            assert_eq!(plain.value, pruned.value);
        }
    }
}

#[test]
fn alphabeta_chooses_what_minimax_chooses() {
    let cancel = AtomicBool::new(false);
    for mut board in some_positions() {
        for depth in 1..4 {
            let plain = MinMaxV0::new(depth).search_root(&cancel, &mut board);
            let pruned = MinMaxV1::new(depth).search_root(&cancel, &mut board);
            assert_eq!(plain.best_move, pruned.best_move);
            assert_eq!(plain.eval, pruned.eval);
            assert_eq!(plain.examined, pruned.examined);
            assert!(board.legal_moves().contains(&plain.best_move));
        }
    }
}

#[test]
fn depth_one_takes_the_first_capture() {
    // h takes l with Horse (down for blue is up for red: red moves up).
    let mut board = Board::load_game(".1.3. ..0.. ..12. ..... 0...0 GHMOR").unwrap();
    let cancel = AtomicBool::new(false);
    let choice = MinMaxV0::new(1).search_root(&cancel, &mut board);
    assert_eq!(choice.eval, 200);
    assert_eq!(choice.best_move.captured_piece, Some(Piece::BlueDisciple));
    let moves = board.legal_moves();
    let first_capture = moves.iter().find(|m| m.captured_piece.is_some()).unwrap();
    assert_eq!(choice.best_move, *first_capture);
}

#[test]
fn a_cancelled_search_keeps_what_it_had() {
    let cancel = AtomicBool::new(true);
    for mut board in some_positions() {
        let before = board.clone();
        let first = board.legal_moves()[0];
        let plain = MinMaxV0::new(3).search_root(&cancel, &mut board);
        assert_eq!(plain.best_move, first);
        assert_eq!(plain.examined, 0);
        assert_eq!(plain.eval, i32::MIN);
        let pruned = MinMaxV1::new(3).search_root(&cancel, &mut board);
        assert_eq!(pruned.best_move, first);
        assert_eq!(pruned.examined, 0);
        let deepened = MinMaxV2::new(4).search_deepening(&cancel, &mut board);
        assert_eq!(deepened.best_move, first);
        assert_eq!(deepened.completed, 0);
        assert!(deepened.cancelled);
        assert_eq!(board, before);
    }
}

#[test]
fn a_cancelled_subtree_counts_nothing() {
    let cancel = AtomicBool::new(true);
    let mut board = Board::default();
    let score = alphabeta(&cancel, &mut board, Heuristic::Positional, 3, LOWER_LIM, UPPER_LIM);
    assert!(score.cancelled);
    assert_eq!(score.value, 0);
    let score = MinMaxV0::new(3).minmax(&cancel, &mut board, 0);
    assert!(score.cancelled);
    assert_eq!(score.value, 0);
    // a position that is not searched further is scored, cancelled or not
    let leaf = alphabeta(&cancel, &mut board, Heuristic::Positional, 0, LOWER_LIM, UPPER_LIM);
    assert!(!leaf.cancelled);
    assert_eq!(board, Board::default());
}

#[test]
fn deepening_completes_its_passes() {
    let cancel = AtomicBool::new(false);
    let mut board = win_in_one();
    let before = board.clone();
    let none = MinMaxV2::new(0).search_deepening(&cancel, &mut board);
    assert_eq!(none.completed, 0);
    assert!(!none.cancelled);
    assert_eq!(none.best_move, board.legal_moves()[0]);
    let none = MinMaxV2::new(1).search_deepening(&cancel, &mut board);
    assert_eq!(none.completed, 0);
    assert_eq!(none.best_move, board.legal_moves()[0]);
    for max_depth in 2..5 {
        let choice = MinMaxV2::new(max_depth).search_deepening(&cancel, &mut board);
        assert_eq!(choice.completed, max_depth - 1);
        assert!(!choice.cancelled);
        assert_eq!(choice.best_move, winning_move());
    }
    assert_eq!(board, before);
}

#[test]
fn deepening_chooses_a_best_move_of_its_last_pass() {
    let cancel = AtomicBool::new(false);
    for mut board in some_positions() {
        for max_depth in 2..4 {
            let choice = MinMaxV2::new(max_depth).search_deepening(&cancel, &mut board);
            let moves = board.legal_moves();
            assert!(moves.contains(&choice.best_move));
            let mut best = i32::MIN;
            let mut chosen = i32::MIN;
            for game_move in moves {
                board.make_move_unchecked(game_move);
                let reply = alphabeta(
                    &cancel,
                    &mut board,
                    Heuristic::Positional,
                    max_depth - 1,
                    LOWER_LIM,
                    UPPER_LIM,
                );
                board.undo_move();
                best = best.max(-reply.value);
                if game_move == choice.best_move {
                    chosen = -reply.value;
                }
            }
            assert_eq!(chosen, best);
        }
    }
}

#[test]
fn searches_signal_that_they_are_done() {
    let players: Vec<Box<dyn AIOpponent>> = vec![
        Box::new(Dummy),
        Box::new(RandomMover),
        Box::new(MinMaxV0::new(2)),
        Box::new(MinMaxV1::new(2)),
        Box::new(MinMaxV2::new(3)),
    ];
    for player in players {
        let cancel = quiet(false);
        let board = win_in_one();
        let chosen = player.search(cancel.clone(), board.clone(), None);
        assert!(cancel.load(Ordering::Relaxed));
        assert!(board.legal_moves().contains(&chosen));
    }
}

#[test]
fn dummy_plays_the_first_legal_move() {
    for board in some_positions() {
        let chosen = Dummy.search(quiet(false), board.clone(), None);
        assert_eq!(chosen, board.legal_moves()[0]);
    }
}

#[test]
fn random_mover_plays_legal_moves() {
    let board = Board::default();
    let moves = board.legal_moves();
    for _ in 0..30 {
        let chosen = RandomMover.search(quiet(false), board.clone(), None);
        assert!(moves.contains(&chosen));
    }
    for (pick, game_move) in moves.iter().enumerate() {
        assert_eq!(RandomMover::pick_move(&board, pick), *game_move);
    }
}

#[test]
fn defaults_look_as_far_as_they_say() {
    assert_eq!(MinMaxV0::default().max_depth(), 5);
    assert_eq!(MinMaxV1::default().max_depth(), 5);
    assert_eq!(MinMaxV2::default().max_depth(), 20);
    assert_eq!(MinMaxV0::new(3).max_depth(), 3);
    assert_eq!(MinMaxV1::new(1).max_depth(), 1);
    assert_eq!(MinMaxV2::new(0).max_depth(), 0);
}

#[test]
fn versions_and_their_names() {
    let all = AIVersion::all();
    assert_eq!(
        all,
        [
            AIVersion::Dummy,
            AIVersion::Random,
            AIVersion::MinMaxV0,
            AIVersion::MinMaxV1,
            AIVersion::MinMaxV2
        ]
    );
    let names: Vec<String> = all.iter().map(|version| version.name()).collect();
    assert_eq!(names, vec!["Dummy", "Random", "MinMaxV0", "MinMaxV1", "MinMaxV2"]);
}

#[test]
fn every_version_finds_a_legal_move() {
    let board = win_in_one();
    let moves = board.legal_moves();
    for version in AIVersion::all() {
        // cancelled from the start, so that the deep searches return at once
        let chosen = version.search(quiet(true), board.clone(), None);
        assert!(moves.contains(&chosen));
    }
    assert_eq!(AIVersion::Dummy.search(quiet(false), board.clone(), None), moves[0]);
}

#[test]
fn cancellation_flag_is_read_and_set() {
    let cancel = AtomicBool::new(false);
    assert!(!cancel_requested(&cancel));
    signal_done(&cancel);
    assert!(cancel_requested(&cancel));
}

#[test]
fn captures_are_searched_first() {
    let board = Board::load_game(".1.3. ..0.. ..12. ..... 0...0 GHMOR").unwrap();
    let moves = board.legal_moves();
    let mut ordered = moves.clone();
    reorder_moves(&mut ordered);
    assert_ne!(ordered, moves);
    let captures: Vec<GameMove> =
        moves.iter().filter(|m| m.captured_piece.is_some()).cloned().collect();
    let others: Vec<GameMove> =
        moves.iter().filter(|m| m.captured_piece.is_none()).cloned().collect();
    assert!(!captures.is_empty());
    assert!(!others.is_empty());
    let mut expected = captures;
    expected.extend(others);
    assert_eq!(ordered, expected);
}

fn candidate(tag: i8, eval: i32) -> Candidate {
    Candidate {
        game_move: GameMove {
            start_pos: Pos(tag, 0),
            end_pos: Pos(0, 0),
            used_card: cards::BOAR,
            transferred_card: cards::OX,
            moved_piece: Piece::RedDisciple,
            captured_piece: None,
        },
        eval,
    }
}

fn tags(candidates: &[Candidate]) -> Vec<(i8, i32)> {
    candidates.iter().map(|c| (c.game_move.start_pos.0, c.eval)).collect()
}

#[test]
fn candidates_sort_best_first_and_keep_ties_in_order() {
    let mut candidates = vec![
        candidate(0, 5),
        candidate(1, 9),
        candidate(2, 5),
        candidate(3, -3),
        candidate(4, 9),
        candidate(1, i32::MIN),
    ];
    sort_candidates(&mut candidates);
    assert_eq!(
        tags(&candidates),
        vec![(1, 9), (4, 9), (0, 5), (2, 5), (3, -3), (1, i32::MIN)]
    );
    insert_candidate(&mut candidates, candidate(7, 5));
    insert_candidate(&mut candidates, candidate(8, 10));
    assert_eq!(
        tags(&candidates),
        vec![(8, 10), (1, 9), (4, 9), (0, 5), (2, 5), (7, 5), (3, -3), (1, i32::MIN)]
    );
    let mut none: Vec<Candidate> = Vec::new();
    sort_candidates(&mut none);
    assert!(none.is_empty());
}

#[test]
fn first_best_is_the_first_of_the_best() {
    let candidates = vec![candidate(0, 1), candidate(1, 7), candidate(2, 7), candidate(3, 2)];
    assert_eq!(first_best_index(&candidates), 1);
    let flat = vec![candidate(0, i32::MIN), candidate(1, i32::MIN)];
    assert_eq!(first_best_index(&flat), 0);
    assert_eq!(first_best_index(&[candidate(5, 0)].to_vec()), 0);
}

#[test]
fn a_search_is_started_and_stopped_in_turn() {
    let mut phase = SearchPhase::new();
    assert_eq!(phase, SearchPhase::Idle);
    assert!(phase.can_start());
    assert!(!phase.can_stop());
    phase.start();
    assert_eq!(phase, SearchPhase::Searching);
    assert!(!phase.can_start());
    assert!(phase.can_stop());
    phase.stop();
    assert_eq!(phase, SearchPhase::Idle);
}

#[test]
fn choose_move_asks_for_a_game_that_goes_on() {
    let board = win_in_one();
    let chosen = AIVersion::Dummy.choose_move(quiet(false), board.clone(), None);
    assert_eq!(chosen, Some(board.legal_moves()[0]));
    let mut over = board.clone();
    over.make_move(cards::TIGER, Pos(4, 1), Pos(2, 1)).unwrap();
    for version in AIVersion::all() {
        assert_eq!(version.choose_move(quiet(false), over.clone(), None), None);
    }
    let stale = Board::load_game("2...3 0.... 0.... 0.... 0.... THBCQ").unwrap();
    assert_eq!(AIVersion::Random.choose_move(quiet(false), stale, None), None);
}

#[test]
fn random_mover_varies() {
    let board = Board::default();
    let first = RandomMover.search(quiet(false), board.clone(), None);
    let mut varied = false;
    for _ in 0..200 {
        if RandomMover.search(quiet(false), board.clone(), None) != first {
            varied = true;
        }
    }
    assert!(varied);
}

#[test]
fn a_position_that_is_not_searched_further_is_scored_whatever_the_flag() {
    let cancel = AtomicBool::new(true);
    let mut board = Board::load_game("BCQKD Bup").unwrap();
    let leaf = alphabeta(&cancel, &mut board, Heuristic::Positional, 0, LOWER_LIM, UPPER_LIM);
    assert!(!leaf.cancelled);
    assert_eq!(leaf.value, -1);
    let leaf = MinMaxV0::new(3).minmax(&cancel, &mut board, 3);
    assert!(!leaf.cancelled);
    assert_eq!(leaf.value, 0);
    let mut over = win_in_one();
    over.make_move(cards::TIGER, Pos(4, 1), Pos(2, 1)).unwrap();
    let decided = alphabeta(&cancel, &mut over, Heuristic::Positional, 5, LOWER_LIM, UPPER_LIM);
    assert!(!decided.cancelled);
    assert_eq!(decided.value, -9999);
    let decided = MinMaxV0::new(4).minmax(&cancel, &mut over, 0);
    assert!(!decided.cancelled);
    assert_eq!(decided.value, -MATERIAL_WIN);
}

#[test]
fn the_flag_is_read_before_a_win_is_made_of() {
    let cancel = AtomicBool::new(true);
    let mut board = win_in_one();
    let before = board.clone();
    let score = alphabeta(&cancel, &mut board, Heuristic::Positional, 1, LOWER_LIM, UPPER_LIM);
    assert!(score.cancelled);
    assert_eq!(score.value, 0);
    assert_eq!(board, before);
}
