use onitama::cards;
use onitama::cards::Card;
use onitama::game::Piece::{BlueDisciple, BlueSensei, RedDisciple, RedSensei};
use onitama::game::{Board, GameMove, GameStatus, Piece, Pos};

fn cornered() -> Board {
    // Red holds Tiger and Horse and stands in one column: no piece can move.
    Board::load_game("2...3 0.... 0.... 0.... 0.... THBCQ").unwrap()
}

#[test]
fn pos_index_round_trip() {
    for idx in 0..25 {
        let pos = Pos::from_index(idx);
        assert!(pos.in_bounds());
        assert_eq!(pos.to_index(), idx);
    }
    assert_eq!(Pos::from_index(7), Pos(1, 2));
    assert_eq!(Pos(4, 3).to_index(), 23);
}

#[test]
fn pos_offset_and_bounds() {
    assert_eq!(Pos(2, 2).offset(&Pos(-1, 2)), Pos(1, 4));
    assert!(Pos(0, 0).in_bounds());
    assert!(Pos(4, 4).in_bounds());
    assert!(!Pos(5, 0).in_bounds());
    assert!(!Pos(0, -1).in_bounds());
    assert!(!Pos(2, 2).offset(&Pos(0, 3)).in_bounds());
}

#[test]
fn piece_colours() {
    assert!(RedDisciple.is_red());
    assert!(RedSensei.is_red());
    assert!(!BlueDisciple.is_red());
    assert!(!BlueSensei.is_red());
}

#[test]
fn default_board_layout() {
    let board = Board::default();
    assert!(board.red_to_move());
    assert_eq!(board.winner(), None);
    assert_eq!(board.status(), GameStatus::Playing);
    assert!(!board.finished());
    assert_eq!(
        board.cards(),
        [cards::BOAR, cards::COBRA, cards::CRAB, cards::CRANE, cards::DRAGON]
    );
    assert_eq!(board.squares()[2], Some(BlueSensei));
    assert_eq!(board.squares()[22], Some(RedSensei));
    assert_eq!(board.squares()[12], None);
    assert_eq!(
        board.red_positions(),
        vec![Pos(4, 0), Pos(4, 1), Pos(4, 2), Pos(4, 3), Pos(4, 4)]
    );
    assert_eq!(
        board.blue_positions(),
        vec![Pos(0, 0), Pos(0, 1), Pos(0, 2), Pos(0, 3), Pos(0, 4)]
    );
    assert_eq!(board.piece_positions(), board.red_positions());
    let pieces = board.pieces();
    assert_eq!(pieces.len(), 10);
    assert_eq!(pieces[0], (BlueDisciple, Pos(0, 0)));
    assert_eq!(pieces[7], (RedSensei, Pos(4, 2)));
}

#[test]
fn boar_step_forward_rotates_cards() {
    let mut board = Board::default();
    let played = board.make_move(cards::BOAR, Pos(4, 0), Pos(3, 0)).unwrap();
    assert_eq!(played.captured_piece, None);
    assert_eq!(played.moved_piece, RedDisciple);
    assert_eq!(played.used_card, cards::BOAR);
    assert_eq!(played.transferred_card, cards::DRAGON);
    assert_eq!(
        board.cards(),
        [cards::DRAGON, cards::COBRA, cards::CRAB, cards::CRANE, cards::BOAR]
    );
    assert!(!board.red_to_move());
    assert_eq!(board.squares()[20], None);
    assert_eq!(board.squares()[15], Some(RedDisciple));
    assert_eq!(board.winner(), None);
}

#[test]
fn illegal_moves_leave_the_board_alone() {
    let mut board = Board::default();
    let before = board.clone();
    // blue's piece
    assert!(board.make_move(cards::BOAR, Pos(0, 0), Pos(1, 0)).is_none());
    // empty square
    assert!(board.make_move(cards::BOAR, Pos(2, 2), Pos(1, 2)).is_none());
    // onto an own piece
    assert!(board.make_move(cards::BOAR, Pos(4, 0), Pos(4, 1)).is_none());
    // not a step of the card
    assert!(board.make_move(cards::BOAR, Pos(4, 0), Pos(2, 0)).is_none());
    // a card of the other player
    assert!(board.make_move(cards::CRAB, Pos(4, 0), Pos(3, 0)).is_none());
    // the transfer card
    assert!(board.make_move(cards::DRAGON, Pos(4, 2), Pos(3, 0)).is_none());
    // off the board
    assert!(board.make_move(cards::BOAR, Pos(4, 0), Pos(4, -1)).is_none());
    assert!(board.make_move(cards::BOAR, Pos(5, 0), Pos(4, 0)).is_none());
    assert!(board.make_move(cards::BOAR, Pos(-1, 7), Pos(9, 9)).is_none());
    assert_eq!(board, before);
}

#[test]
fn blue_plays_cards_mirrored() {
    let mut board = Board::default();
    board.make_move(cards::BOAR, Pos(4, 0), Pos(3, 0)).unwrap();
    // Crab for red is (0,-2), (-1,0), (0,2); blue steps down the board.
    assert!(board.make_move(cards::CRAB, Pos(0, 1), Pos(-1, 1)).is_none());
    let played = board.make_move(cards::CRAB, Pos(0, 1), Pos(1, 1)).unwrap();
    assert_eq!(played.moved_piece, BlueDisciple);
    assert_eq!(played.transferred_card, cards::BOAR);
    assert_eq!(
        board.cards(),
        [cards::DRAGON, cards::COBRA, cards::BOAR, cards::CRANE, cards::CRAB]
    );
    assert!(board.red_to_move());
}

#[test]
fn legal_moves_from_pos_lists_card_by_card() {
    let board = Board::default();
    let moves = board.legal_moves_from_pos(Pos(4, 2));
    // Boar: up; left and right are own pieces. Cobra: up-right; left is
    // an own piece and down-right is off the board.
    let ends: Vec<Pos> = moves.iter().map(|m| m.end_pos).collect();
    assert_eq!(ends, vec![Pos(3, 2), Pos(3, 3)]);
    assert_eq!(moves[0].used_card, cards::BOAR);
    assert_eq!(moves[1].used_card, cards::COBRA);
    for game_move in &moves {
        assert_eq!(game_move.start_pos, Pos(4, 2));
        assert_eq!(game_move.moved_piece, RedSensei);
        assert_eq!(game_move.captured_piece, None);
        assert_eq!(game_move.transferred_card, cards::DRAGON);
    }
    assert!(board.legal_moves_from_pos(Pos(0, 0)).is_empty());
    assert!(board.legal_moves_from_pos(Pos(2, 2)).is_empty());
    assert!(board.legal_moves_from_pos(Pos(7, 2)).is_empty());
    assert!(board.legal_moves_from_pos(Pos(2, -3)).is_empty());
}

#[test]
fn legal_moves_are_sound() {
    let mut board = Board::default();
    for _ in 0..6 {
        let hand = if board.red_to_move() {
            [board.cards()[0], board.cards()[1]]
        } else {
            [board.cards()[2], board.cards()[3]]
        };
        let moves = board.legal_moves();
        assert!(!moves.is_empty());
        for game_move in &moves {
            assert!(game_move.end_pos.in_bounds());
            assert!(hand.contains(&game_move.used_card));
            let offset = Pos(
                game_move.end_pos.0 - game_move.start_pos.0,
                game_move.end_pos.1 - game_move.start_pos.1,
            );
            let steps = if board.red_to_move() {
                game_move.used_card.offsets()
            } else {
                game_move.used_card.rev_offsets()
            };
            assert!(steps.contains(&offset));
            let target = board.squares()[game_move.end_pos.to_index()];
            assert!(target.map_or(true, |piece| piece.is_red() != board.red_to_move()));
            let mut copy = board.clone();
            let played = copy
                .make_move(game_move.used_card, game_move.start_pos, game_move.end_pos)
                .unwrap();
            assert_eq!(played, *game_move);
        }
        let last = moves.len() - 1;
        board.make_move_unchecked(moves[last]);
    }
}

#[test]
fn legal_moves_is_the_union_over_squares() {
    let board = Board::default();
    let by_square: Vec<GameMove> = (0..25)
        .flat_map(|idx| board.legal_moves_from_pos(Pos::from_index(idx)))
        .collect();
    assert_eq!(board.legal_moves(), by_square);
    assert_eq!(by_square.len(), 9);
}

#[test]
fn undo_restores_every_part() {
    let mut board = Board::default();
    board.make_move(cards::BOAR, Pos(4, 0), Pos(3, 0)).unwrap();
    board.make_move(cards::CRAB, Pos(0, 1), Pos(1, 1)).unwrap();
    for game_move in board.legal_moves() {
        let before = board.clone();
        let hash = board.state_hash();
        board.make_move_unchecked(game_move);
        assert_ne!(board, before);
        board.undo_move();
        assert_eq!(board, before);
        assert_eq!(board.state_hash(), hash);
    }
}

#[test]
fn undo_restores_a_capture_and_clears_the_winner() {
    let mut board = Board::load_game("11.11 ..3.. ..... ..2.. 00.00 BXLUT Brs Lhl").unwrap();
    let before = board.clone();
    let played = board.make_move(cards::TIGER, Pos(4, 1), Pos(2, 1)).unwrap();
    assert_eq!(played.captured_piece, Some(BlueSensei));
    assert_eq!(board.winner(), Some(true));
    assert_eq!(board.status(), GameStatus::RedWon);
    assert!(board.finished());
    board.undo_move();
    assert_eq!(board.winner(), None);
    assert_eq!(board.squares()[11], Some(BlueSensei));
    assert_eq!(board.squares()[21], Some(RedDisciple));
    assert_eq!(board, before);
}

#[test]
fn cards_are_conserved() {
    let mut board = Board::random_cards();
    let mut expected: Vec<Card> = board.cards().to_vec();
    expected.sort_by_key(|card| cards::index_of_card(card));
    for turn in 0..12 {
        let moves = board.legal_moves();
        if moves.is_empty() || board.winner().is_some() {
            break;
        }
        board.make_move_unchecked(moves[turn % moves.len()]);
        let mut now: Vec<Card> = board.cards().to_vec();
        now.sort_by_key(|card| cards::index_of_card(card));
        assert_eq!(now, expected);
    }
}

#[test]
fn sensei_on_the_far_home_square_wins() {
    // The red sensei stands below blue's home square, which is empty.
    let mut board = Board::load_game("1..31 ..2.. ..... ..... 00.00 BCQKD").unwrap();
    let played = board.make_move(cards::BOAR, Pos(1, 2), Pos(0, 2)).unwrap();
    assert_eq!(played.captured_piece, None);
    assert_eq!(board.winner(), Some(true));
    assert_eq!(board.status(), GameStatus::RedWon);
}

#[test]
fn blue_wins_by_capture() {
    let mut board = Board::load_game("11.11 ..... ..3.. ..2.. 00.00 BCQKD Bup").unwrap();
    assert!(!board.red_to_move());
    // Crane mirrored for blue: (-1,1), (1,0), (-1,-1).
    let played = board.make_move(cards::CRANE, Pos(2, 2), Pos(3, 2)).unwrap();
    assert_eq!(played.captured_piece, Some(RedSensei));
    assert_eq!(board.winner(), Some(false));
    assert_eq!(board.status(), GameStatus::BlueWon);
}

#[test]
fn no_move_is_a_stalemate() {
    let board = cornered();
    assert_eq!(board.winner(), None);
    assert!(board.legal_moves().is_empty());
    assert_eq!(board.status(), GameStatus::Stalemate);
    assert!(board.finished());
}

#[test]
fn random_boards_hold_five_different_cards() {
    for _ in 0..20 {
        let board = Board::random_cards();
        let held = board.cards();
        for i in 0..5 {
            assert!(cards::ALL_CARDS.contains(&held[i]));
            for j in (i + 1)..5 {
                assert_ne!(held[i], held[j]);
            }
        }
        assert!(board.red_to_move());
        assert_eq!(board.squares(), Board::default().squares());
    }
}

#[test]
fn state_hash_tells_positions_apart() {
    let board = Board::default();
    let mut seen = vec![board.state_hash()];
    for game_move in board.legal_moves() {
        let mut next = board.clone();
        next.make_move_unchecked(game_move);
        let hash = next.state_hash();
        assert!(!seen.contains(&hash));
        seen.push(hash);
    }
}

#[test]
fn state_hash_of_default_board() {
    // FNV-1a over the 25 layout symbols, the turn, the five card places
    // and the winner.
    let mut bytes: Vec<u8> = Vec::new();
    bytes.extend_from_slice(b"11311...............00200");
    bytes.extend_from_slice(&[1, 0, 1, 2, 3, 4, 0]);
    let mut hash: u64 = 0xcbf29ce484222325;
    for byte in bytes {
        hash = (hash ^ byte as u64).wrapping_mul(0x100000001b3);
    }
    assert_eq!(Board::default().state_hash(), hash);
}

#[test]
fn boards_compare_by_every_part() {
    let mut a = Board::default();
    let b = Board::default();
    assert_eq!(a, b);
    a.make_move(cards::BOAR, Pos(4, 0), Pos(3, 0)).unwrap();
    assert_ne!(a, b);
    a.undo_move();
    assert_eq!(a, b);
    // the same position from another opening is another board
    let explicit = Board::load_game("11311 ..... ..... ..... 00200 BCQKD").unwrap();
    assert_eq!(explicit.squares(), b.squares());
    assert_eq!(explicit.state_hash(), b.state_hash());
    assert_ne!(explicit, b);
}

#[test]
fn pieces_lists_what_is_on_the_board() {
    let board = cornered();
    let pieces: Vec<(Piece, Pos)> = board.pieces();
    assert_eq!(
        pieces,
        vec![
            (RedSensei, Pos(0, 0)),
            (BlueSensei, Pos(0, 4)),
            (RedDisciple, Pos(1, 0)),
            (RedDisciple, Pos(2, 0)),
            (RedDisciple, Pos(3, 0)),
            (RedDisciple, Pos(4, 0)),
        ]
    );
    assert_eq!(board.blue_positions(), vec![Pos(0, 4)]);
}

#[test]
fn one_move_from_winning_sees_the_capture_and_the_home_square() {
    assert!(!Board::default().one_move_from_winning());
    let capture = Board::load_game("11.11 ..3.. ..... ..2.. 00.00 BXLUT Brs Lhl").unwrap();
    assert!(capture.one_move_from_winning());
    let home = Board::load_game("1..31 ..2.. ..... ..... 00.00 BCQKD").unwrap();
    assert!(home.one_move_from_winning());
    let earlier = Board::load_game("11.11 ..3.. ..... ..2.. 00.00 BXLUT Brs").unwrap();
    assert!(!earlier.one_move_from_winning());
    assert!(!cornered().one_move_from_winning());
}

#[test]
fn boards_from_play_hold_different_cards() {
    assert!(Board::default().cards_distinct());
    assert!(Board::random_cards().cards_distinct());
    let mut board = Board::default();
    for game_move in board.legal_moves() {
        board.make_move_unchecked(game_move);
        assert!(board.cards_distinct());
        board.undo_move();
    }
}

#[test]
fn senseis_never_multiply() {
    let mut board = Board::default();
    for turn in 0..20 {
        let moves = board.legal_moves();
        if moves.is_empty() || board.winner().is_some() {
            break;
        }
        board.make_move_unchecked(moves[(turn * 5) % moves.len()]);
        let red = board.squares().iter().filter(|s| **s == Some(RedSensei)).count();
        let blue = board.squares().iter().filter(|s| **s == Some(BlueSensei)).count();
        assert!(red <= 1);
        assert!(blue <= 1);
    }
}
