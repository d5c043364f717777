use onitama::cards;
use onitama::game::notation::{decode_card, decode_square, significant_bytes};
use onitama::game::{Board, GameMove, LoadGameError, Piece, Pos};

fn load_error(text: &str) -> LoadGameError {
    match Board::load_game(text) {
        Ok(_) => panic!("text should not load: {:?}", text),
        Err(e) => e,
    }
}

#[test]
fn comments_and_noise_are_dropped() {
    assert_eq!(significant_bytes(b"B C\tQ-K,D"), b"BCQKD".to_vec());
    assert_eq!(significant_bytes(b"BC # QK\nD"), b"BCD".to_vec());
    assert_eq!(significant_bytes(b"# all of it"), Vec::<u8>::new());
    assert_eq!(significant_bytes(b"a#b#c\r\nd"), b"ad".to_vec());
    assert_eq!(significant_bytes("B\u{e9}C".as_bytes()), b"BC".to_vec());
    assert_eq!(significant_bytes(b"0123.abc"), b"0123.abc".to_vec());
}

#[test]
fn letters_read_in_either_case() {
    assert_eq!(decode_card(b'B'), Some(cards::BOAR));
    assert_eq!(decode_card(b'b'), Some(cards::BOAR));
    assert_eq!(decode_card(b'x'), Some(cards::MONKEY));
    assert_eq!(decode_card(b'T'), Some(cards::TIGER));
    assert_eq!(decode_card(b'Z'), None);
    assert_eq!(decode_card(b'A'), None);
    assert_eq!(decode_card(b'1'), None);
    assert_eq!(decode_square(b'a'), Some(Pos(0, 0)));
    assert_eq!(decode_square(b'y'), Some(Pos(4, 4)));
    assert_eq!(decode_square(b'H'), Some(Pos(1, 2)));
    // z names the place behind the last square
    assert_eq!(decode_square(b'z'), Some(Pos(5, 0)));
    assert_eq!(decode_square(b'Z'), Some(Pos(5, 0)));
    assert!(!Pos(5, 0).in_bounds());
    assert_eq!(decode_square(b'.'), None);
    assert_eq!(decode_square(b'3'), None);
    let lower = Board::load_game("bcqkd").unwrap();
    assert_eq!(lower, Board::default());
    let upper = Board::load_game("BCQKD BUP").unwrap();
    let usual = Board::load_game("BCQKD Bup").unwrap();
    assert_eq!(upper, usual);
}

#[test]
fn save_writes_moves_behind_the_cards() {
    let mut board = Board::default();
    board.make_move(cards::BOAR, Pos(4, 0), Pos(3, 0)).unwrap();
    board.make_move(cards::CRAB, Pos(0, 1), Pos(1, 1)).unwrap();
    assert_eq!(board.save_game(false), "BCQKDBupQbg");
    assert_eq!(board.save_game(true), "\n\nBCQKD\n\nBup Qbg ");
}

#[test]
fn save_default_whitespaced() {
    assert_eq!(Board::default().save_game(true), "\n\nBCQKD\n\n");
}

#[test]
fn save_writes_a_layout_that_is_not_standard() {
    let text = "11.11 ..3.. ..... ..2.. 00.00 BXLUT Brs Lhl Tvl";
    let board = Board::load_game(text).unwrap();
    assert_eq!(
        board.save_game(false),
        "11.11..3.........2..00.00BXLUTBrsLhlTvl"
    );
    assert_eq!(
        board.save_game(true),
        "11.11..3.........2..00.00\n\nBXLUT\n\nBrs Lhl Tvl "
    );
    assert_eq!(Board::load_game(&board.save_game(false)).unwrap(), board);
    assert_eq!(Board::load_game(&board.save_game(true)).unwrap(), board);
}

#[test]
fn round_trip_mid_game() {
    let mut board = Board::random_cards();
    for turn in 0..15 {
        if board.winner().is_some() {
            break;
        }
        let moves = board.legal_moves();
        if moves.is_empty() {
            break;
        }
        let game_move: GameMove = moves[(turn * 7) % moves.len()];
        board.make_move_unchecked(game_move);
        let compact = Board::load_game(&board.save_game(false)).unwrap();
        let padded = Board::load_game(&board.save_game(true)).unwrap();
        assert_eq!(compact, board);
        assert_eq!(padded, board);
        assert_eq!(compact.red_to_move(), board.red_to_move());
        assert_eq!(compact.winner(), board.winner());
        assert_eq!(compact.cards(), board.cards());
        assert_eq!(compact.squares(), board.squares());
    }
}

#[test]
fn move_as_encoded_bytes() {
    let game_move = GameMove {
        start_pos: Pos(4, 1),
        end_pos: Pos(2, 1),
        used_card: cards::TIGER,
        transferred_card: cards::BOAR,
        moved_piece: Piece::RedDisciple,
        captured_piece: None,
    };
    assert_eq!(game_move.as_encoded_bytes(), *b"Tvl");
    let corner = GameMove { start_pos: Pos(0, 0), end_pos: Pos(4, 4), ..game_move };
    assert_eq!(corner.as_encoded_bytes(), *b"Tay");
}

#[test]
fn empty_text_has_no_cards() {
    assert_eq!(load_error(""), LoadGameError::CardsParse);
    assert_eq!(load_error("   \n # BCQKD\n"), LoadGameError::CardsParse);
}

#[test]
fn bad_card_blocks() {
    assert_eq!(load_error("BCQK"), LoadGameError::CardsParse);
    assert_eq!(load_error("BCQKZ"), LoadGameError::CardsParse);
    assert_eq!(load_error("BCQK1"), LoadGameError::CardsParse);
    assert_eq!(load_error("BCQKB"), LoadGameError::CardsParse);
    assert_eq!(load_error("BBQKD"), LoadGameError::CardsParse);
    assert_eq!(
        load_error("11311 ..... ..... ..... 00200"),
        LoadGameError::CardsParse
    );
    assert_eq!(
        load_error("11311 ..... ..... ..... 00200 BCQ"),
        LoadGameError::CardsParse
    );
}

#[test]
fn bad_layouts() {
    assert_eq!(load_error("11311 ..... BCQKD"), LoadGameError::BoardParse);
    assert_eq!(load_error("."), LoadGameError::BoardParse);
    assert_eq!(
        load_error("11311 ..... ..4.. ..... 00200 BCQKD"),
        LoadGameError::BoardParse
    );
    assert_eq!(
        load_error("11311 ..... ..B.. ..... 00200 BCQKD"),
        LoadGameError::BoardParse
    );
    assert_eq!(load_error("9BCQKD"), LoadGameError::BoardParse);
}

#[test]
fn bad_move_blocks() {
    assert_eq!(load_error("BCQKD B"), LoadGameError::MoveHistoryParse);
    assert_eq!(load_error("BCQKD Bu"), LoadGameError::MoveHistoryParse);
    assert_eq!(load_error("BCQKD Bup Q"), LoadGameError::MoveHistoryParse);
    assert_eq!(load_error("BCQKD Zup"), LoadGameError::MoveHistoryParse);
    assert_eq!(load_error("BCQKD Bu1"), LoadGameError::MoveHistoryParse);
    // the move block is measured before any move is played
    assert_eq!(load_error("BCQKD Bwm Q"), LoadGameError::MoveHistoryParse);
    // a record that is malformed comes before a later one that is illegal
    assert_eq!(load_error("BCQKD Bup 1bg Bwm"), LoadGameError::MoveHistoryParse);
}

#[test]
fn illegal_moves_in_the_history() {
    assert_eq!(load_error("BCQKD Bwm"), LoadGameError::IllegalMove);
    assert_eq!(load_error("BCQKD Qup"), LoadGameError::IllegalMove);
    assert_eq!(load_error("BCQKD Bup Bpk"), LoadGameError::IllegalMove);
    assert_eq!(load_error("BCQKD Bab"), LoadGameError::IllegalMove);
    // a square letter past y names no square of the board
    assert_eq!(load_error("BCQKDBuz"), LoadGameError::IllegalMove);
    assert_eq!(load_error("BCQKD Bzp"), LoadGameError::IllegalMove);
    assert_eq!(load_error("BCQKD BZU"), LoadGameError::IllegalMove);
    // the first record that fails decides
    assert_eq!(load_error("BCQKD Bwm Zup"), LoadGameError::IllegalMove);
}

#[test]
fn error_messages() {
    assert_eq!(
        LoadGameError::BoardParse.to_string(),
        "board state was expected but failed to parse"
    );
    assert_eq!(LoadGameError::CardsParse.to_string(), "failed to parse cards");
    assert_eq!(
        LoadGameError::MoveHistoryParse.to_string(),
        "failed to parse move history"
    );
    assert_eq!(
        LoadGameError::IllegalMove.to_string(),
        "illegal move in move history"
    );
}
