//! Saving and loading are inverse: what [`save_text`] writes of a state that
//! legal play has reached, [`parse`] reads back as that state.

use crate::cards::{Card, ALL_CARDS};
use crate::game::laws::lemma_play_keeps_shape;
use crate::game::notation::{
    as_chars, block_gap, card_of_letter, cards_text, history_text, in_comment, is_layout_symbol,
    is_significant, layout_text, lemma_identifiers_differ, letter_of_square, parse, parse_cards,
    parse_layout, piece_of_symbol, record_text, replay_records, save_text, significant,
    spelled_cards, square_of_letter, symbol_of_piece, upper, HASH, LOWER_A, LOWER_Z, SPACE,
    UPPER_A, UPPER_Z,
};
use crate::game::rules::BoardState;
use crate::game::{GameMove, LoadGameError, Piece, Pos};
use vstd::prelude::*;
use vstd::utf8::{encode_utf8, is_ascii_chars, is_ascii_chars_encode_utf8};

verus! {

/// Bytes that can be written into a save: below 128 and no `#`.
pub open spec fn plain(bytes: Seq<u8>) -> bool {
    forall|i: int| 0 <= i < bytes.len() ==> #[trigger] bytes[i] < 128 && bytes[i] != HASH
}

/// Bytes of which each counts when it is read.
pub open spec fn all_significant(bytes: Seq<u8>) -> bool {
    forall|i: int| 0 <= i < bytes.len() ==> is_significant(#[trigger] bytes[i])
}

/// Bytes of which none counts when it is read.
pub open spec fn none_significant(bytes: Seq<u8>) -> bool {
    forall|i: int| 0 <= i < bytes.len() ==> !is_significant(#[trigger] bytes[i])
}

/// Text without a `#` holds no comment.
proof fn lemma_plain_has_no_comment(bytes: Seq<u8>)
    requires
        plain(bytes),
    ensures
        !in_comment(bytes),
    decreases bytes.len(),
{
    if bytes.len() > 0 {
        assert(bytes[bytes.len() - 1] != HASH);
        assert forall|i: int| 0 <= i < bytes.drop_last().len() implies #[trigger] bytes.drop_last()[i]
            < 128 && bytes.drop_last()[i] != HASH by {
            assert(bytes.drop_last()[i] == bytes[i]);
        }
        lemma_plain_has_no_comment(bytes.drop_last());
    }
}

/// Of two texts without a `#`, written one after the other, what counts is
/// what counts in the first and then what counts in the second.
proof fn lemma_significant_concat(a: Seq<u8>, b: Seq<u8>)
    requires
        plain(a),
        plain(b),
    ensures
        significant(a + b) == significant(a) + significant(b),
        plain(a + b),
    decreases b.len(),
{
    if b.len() == 0 {
        assert(a + b =~= a);
        assert(significant(a) + significant(b) =~= significant(a));
    } else {
        let shorter = b.drop_last();
        assert forall|i: int| 0 <= i < shorter.len() implies #[trigger] shorter[i] < 128
            && shorter[i] != HASH by {
            assert(shorter[i] == b[i]);
        }
        lemma_significant_concat(a, shorter);
        assert((a + b).drop_last() =~= a + shorter);
        assert((a + b).last() == b.last());
        lemma_plain_has_no_comment(a + shorter);
        lemma_plain_has_no_comment(shorter);
        assert(significant(a + b) =~= significant(a) + significant(b));
    }
    assert forall|i: int| 0 <= i < (a + b).len() implies #[trigger] (a + b)[i] < 128 && (a
        + b)[i] != HASH by {
        if i < a.len() {
            assert((a + b)[i] == a[i]);
        } else {
            assert((a + b)[i] == b[i - a.len()]);
        }
    }
}

/// Where every byte counts, the text is what counts of it, and it is
/// plain.
proof fn lemma_all_count(bytes: Seq<u8>)
    requires
        all_significant(bytes),
    ensures
        significant(bytes) == bytes,
        plain(bytes),
    decreases bytes.len(),
{
    if bytes.len() > 0 {
        let shorter = bytes.drop_last();
        assert forall|i: int| 0 <= i < shorter.len() implies is_significant(
            #[trigger] shorter[i],
        ) by {
            assert(shorter[i] == bytes[i]);
        }
        lemma_all_count(shorter);
        assert(is_significant(bytes[bytes.len() - 1]));
        assert forall|i: int| 0 <= i < shorter.len() implies #[trigger] shorter[i] < 128
            && shorter[i] != HASH by {
            assert(is_significant(shorter[i]));
        }
        lemma_plain_has_no_comment(shorter);
        assert(significant(bytes) =~= bytes);
    }
    assert forall|i: int| 0 <= i < bytes.len() implies #[trigger] bytes[i] < 128 && bytes[i]
        != HASH by {
        assert(is_significant(bytes[i]));
    }
}

/// Where no byte counts, nothing counts.
proof fn lemma_none_count(bytes: Seq<u8>)
    requires
        none_significant(bytes),
    ensures
        significant(bytes) == Seq::<u8>::empty(),
    decreases bytes.len(),
{
    if bytes.len() > 0 {
        let shorter = bytes.drop_last();
        assert forall|i: int| 0 <= i < shorter.len() implies !is_significant(
            #[trigger] shorter[i],
        ) by {
            assert(shorter[i] == bytes[i]);
        }
        lemma_none_count(shorter);
        assert(!is_significant(bytes[bytes.len() - 1]));
    }
}

/// The letter of a card reads back as the card.
pub proof fn lemma_card_letter_reads_back(card: Card)
    ensures
        card_of_letter(card.identifier_spec()) == Some(card),
        UPPER_A <= card.identifier_spec() <= UPPER_Z,
{
    lemma_identifiers_differ();
    let letter = card.identifier_spec();
    assert(upper(letter) == letter);
    let index = card.index_spec();
    assert(ALL_CARDS@[index] == card);
    let found = choose|i: int| 0 <= i < 16 && ALL_CARDS@[i].identifier_spec() == upper(letter);
    assert(found == index);
}

/// The letter of a square of the board reads back as the square.
pub proof fn lemma_square_letter_reads_back(pos: Pos)
    requires
        pos.in_bounds_spec(),
    ensures
        square_of_letter(letter_of_square(pos)) == Some(pos),
        LOWER_A <= letter_of_square(pos) < LOWER_Z,
{
    let letter = letter_of_square(pos);
    assert(upper(letter) == UPPER_A + pos.index_spec());
    assert(Pos::from_index_spec(pos.index_spec()) == pos);
}

/// The symbol of a square's content reads back as the content.
pub proof fn lemma_symbol_reads_back(content: Option<Piece>)
    ensures
        piece_of_symbol(symbol_of_piece(content)) == Some(content),
        is_layout_symbol(symbol_of_piece(content)),
{
}

/// The records of a history on the board: three letters for each move, each
/// of them significant.
proof fn lemma_history_text_shape(history: Seq<GameMove>)
    requires
        forall|i: int| 0 <= i < history.len() ==> (#[trigger] history[i]).on_board(),
    ensures
        history_text(history, false).len() == 3 * history.len(),
        all_significant(history_text(history, false)),
        forall|k: int|
            #![trigger history[k]]
            0 <= k < history.len() ==> {
                &&& history_text(history, false)[3 * k] == history[k].used_card.identifier_spec()
                &&& history_text(history, false)[3 * k + 1] == letter_of_square(
                    history[k].start_pos,
                )
                &&& history_text(history, false)[3 * k + 2] == letter_of_square(
                    history[k].end_pos,
                )
            },
    decreases history.len(),
{
    if history.len() > 0 {
        let shorter = history.drop_last();
        assert forall|i: int| 0 <= i < shorter.len() implies (#[trigger] shorter[i]).on_board() by {
            assert(shorter[i] == history[i]);
        }
        lemma_history_text_shape(shorter);
        let last = history.last();
        assert(last == history[history.len() - 1]);
        assert(last.on_board());
        lemma_card_letter_reads_back(last.used_card);
        lemma_square_letter_reads_back(last.start_pos);
        lemma_square_letter_reads_back(last.end_pos);
        let text = history_text(history, false);
        let earlier = history_text(shorter, false);
        assert(text == earlier + record_text(last));
        assert forall|k: int| #![trigger history[k]] 0 <= k < history.len() implies {
            &&& text[3 * k] == history[k].used_card.identifier_spec()
            &&& text[3 * k + 1] == letter_of_square(history[k].start_pos)
            &&& text[3 * k + 2] == letter_of_square(history[k].end_pos)
        } by {
            if k < shorter.len() {
                assert(shorter[k] == history[k]);
                assert(text[3 * k] == earlier[3 * k]);
                assert(text[3 * k + 1] == earlier[3 * k + 1]);
                assert(text[3 * k + 2] == earlier[3 * k + 2]);
            } else {
                assert(text[3 * k] == record_text(last)[0]);
                assert(text[3 * k + 1] == record_text(last)[1]);
                assert(text[3 * k + 2] == record_text(last)[2]);
            }
        }
        assert forall|i: int| 0 <= i < text.len() implies is_significant(#[trigger] text[i]) by {
            if i < earlier.len() {
                assert(text[i] == earlier[i]);
            } else {
                assert(text[i] == record_text(last)[i - earlier.len()]);
            }
        }
    }
}

/// With or without whitespace, the same bytes of a history count.
proof fn lemma_history_text_counts(history: Seq<GameMove>, with_whitespace: bool)
    requires
        forall|i: int| 0 <= i < history.len() ==> (#[trigger] history[i]).on_board(),
    ensures
        significant(history_text(history, with_whitespace)) == history_text(history, false),
        plain(history_text(history, with_whitespace)),
    decreases history.len(),
{
    if history.len() == 0 {
    } else {
        let shorter = history.drop_last();
        assert forall|i: int| 0 <= i < shorter.len() implies (#[trigger] shorter[i]).on_board() by {
            assert(shorter[i] == history[i]);
        }
        lemma_history_text_counts(shorter, with_whitespace);
        let last = history.last();
        assert(last == history[history.len() - 1]);
        lemma_card_letter_reads_back(last.used_card);
        lemma_square_letter_reads_back(last.start_pos);
        lemma_square_letter_reads_back(last.end_pos);
        let record = record_text(last);
        assert(all_significant(record));
        lemma_all_count(record);
        let before = history_text(shorter, with_whitespace);
        lemma_significant_concat(before, record);
        if with_whitespace {
            let space = seq![SPACE];
            assert(none_significant(space));
            lemma_none_count(space);
            assert(plain(space));
            lemma_significant_concat(before + record, space);
            assert(history_text(history, with_whitespace) =~= before + record + space);
            assert(significant(before + record + space) =~= history_text(shorter, false)
                + record);
        }
    }
}

/// Legal play that reaches a state reaches a state after each of its moves.
proof fn lemma_play_prefix(start: BoardState, moves: Seq<GameMove>, n: int)
    requires
        start.play(moves) is Some,
        0 <= n <= moves.len(),
    ensures
        start.play(moves.take(n)) is Some,
    decreases moves.len() - n,
{
    if n == moves.len() {
        assert(moves.take(n) =~= moves);
    } else {
        lemma_play_prefix(start, moves, n + 1);
        assert(moves.take(n + 1).drop_last() =~= moves.take(n));
    }
}

/// Reading the records of a legally played history plays the history.
proof fn lemma_replay_plays(start: BoardState, history: Seq<GameMove>, n: int)
    requires
        start.wf(),
        start.play(history) is Some,
        0 <= n <= history.len(),
        forall|i: int| 0 <= i < history.len() ==> (#[trigger] history[i]).on_board(),
    ensures
        start.play(history.take(n)) is Some,
        replay_records(start, history_text(history, false), n) == Ok::<
            BoardState,
            LoadGameError,
        >(start.play(history.take(n)).unwrap()),
    decreases n,
{
    lemma_play_prefix(start, history, n);
    if n > 0 {
        lemma_replay_plays(start, history, n - 1);
        lemma_history_text_shape(history);
        let played = history.take(n);
        assert(played.drop_last() =~= history.take(n - 1));
        assert(played.last() == history[n - 1]);
        let before = start.play(history.take(n - 1)).unwrap();
        let m = history[n - 1];
        assert(before.position.is_legal_move(m));
        lemma_card_letter_reads_back(m.used_card);
        lemma_square_letter_reads_back(m.start_pos);
        lemma_square_letter_reads_back(m.end_pos);
    }
}

/// The bytes of a save without whitespace: layout, cards, records.
pub open spec fn compact_text(state: BoardState) -> Seq<u8> {
    save_text(state, false)
}

/// With or without whitespace, what counts of a save is the save without
/// whitespace; and a save is plain.
proof fn lemma_save_text_counts(state: BoardState, with_whitespace: bool)
    requires
        state.wf(),
    ensures
        significant(save_text(state, with_whitespace)) == compact_text(state),
        plain(save_text(state, with_whitespace)),
{
    let layout = if state.default_start {
        Seq::<u8>::empty()
    } else {
        layout_text(state.initial_squares)
    };
    let gap = block_gap(with_whitespace);
    let cards = cards_text(state.initial_cards);
    let moves = history_text(state.history, with_whitespace);
    let records = history_text(state.history, false);
    assert forall|i: int| 0 <= i < layout.len() implies is_significant(#[trigger] layout[i]) by {
        lemma_symbol_reads_back(state.initial_squares[i]);
    }
    assert forall|i: int| 0 <= i < cards.len() implies is_significant(#[trigger] cards[i]) by {
        lemma_card_letter_reads_back(state.initial_cards[i]);
    }
    assert(none_significant(gap));
    assert(plain(gap));
    lemma_all_count(layout);
    lemma_all_count(cards);
    lemma_none_count(gap);
    lemma_history_text_counts(state.history, with_whitespace);
    lemma_significant_concat(layout, gap);
    lemma_significant_concat(layout + gap, cards);
    lemma_significant_concat(layout + gap + cards, gap);
    lemma_significant_concat(layout + gap + cards + gap, moves);
    let none = block_gap(false);
    assert(layout + none + cards + none + records =~= layout + cards + records);
    assert(significant(save_text(state, with_whitespace)) =~= layout + cards + records);
}

/// Plain bytes written as text are the UTF-8 encoding of that text.
proof fn lemma_plain_text_encodes(text: Seq<u8>)
    requires
        plain(text),
    ensures
        encode_utf8(as_chars(text)) == text,
{
    let chars = as_chars(text);
    assert(is_ascii_chars(chars)) by {
        assert forall|i: int| 0 <= i < chars.len() implies '\0' <= #[trigger] chars[i]
            <= '\u{7f}' by {
            assert(text[i] < 128);
        }
    }
    is_ascii_chars_encode_utf8(chars);
    assert(encode_utf8(chars) =~= text) by {
        assert forall|i: int| 0 <= i < text.len() implies encode_utf8(chars)[i] == text[i] by {
            assert(chars[i] as u8 == encode_utf8(chars)[i]);
            assert(text[i] < 128);
        }
    }
}

/// The opening that the head of a compact save spells is the opening of the
/// saved state, and what follows the head are the records of its history.
proof fn lemma_head_reads_back(state: BoardState)
    requires
        state.reachable(),
    ensures
        ({
            let bytes = compact_text(state);
            let explicit = is_layout_symbol(bytes[0]);
            let rest = if explicit {
                bytes.skip(25)
            } else {
                bytes
            };
            &&& bytes.len() > 0
            &&& explicit == !state.default_start
            &&& explicit ==> parse_layout(bytes) == Some(state.initial_squares)
            &&& parse_cards(rest) == Some(state.initial_cards)
            &&& rest.skip(5) == history_text(state.history, false)
        }),
{
    let layout = if state.default_start {
        Seq::<u8>::empty()
    } else {
        layout_text(state.initial_squares)
    };
    let cards = cards_text(state.initial_cards);
    let records = history_text(state.history, false);
    let none = block_gap(false);
    let bytes = compact_text(state);
    assert(bytes =~= layout + cards + records);
    lemma_card_letter_reads_back(state.initial_cards[0]);
    assert(cards[0] == state.initial_cards[0].identifier_spec());
    let explicit = is_layout_symbol(bytes[0]);
    if state.default_start {
        assert(bytes[0] == cards[0]);
        assert(!explicit);
    } else {
        lemma_symbol_reads_back(state.initial_squares[0]);
        assert(bytes[0] == layout[0]);
        assert(explicit);
        assert forall|i: int| 0 <= i < 25 implies (#[trigger] piece_of_symbol(bytes[i]))
            == Some(state.initial_squares[i]) by {
            assert(bytes[i] == layout[i]);
            lemma_symbol_reads_back(state.initial_squares[i]);
        }
        assert(parse_layout(bytes).unwrap() =~= state.initial_squares);
    }
    let rest = if explicit {
        bytes.skip(25)
    } else {
        bytes
    };
    assert(rest =~= cards + records);
    assert forall|i: int| 0 <= i < 5 implies (#[trigger] card_of_letter(rest[i])) == Some(
        state.initial_cards[i],
    ) by {
        assert(rest[i] == cards[i]);
        lemma_card_letter_reads_back(state.initial_cards[i]);
    }
    assert(spelled_cards(rest) =~= state.initial_cards);
    assert(rest.skip(5) =~= records);
}

/// Round trip: a state that legal play has reached, saved with or without
/// whitespace and read again, is the same state: layout, cards, turn,
/// winner, history and opening.
pub proof fn lemma_save_load_round_trip(state: BoardState, with_whitespace: bool)
    requires
        state.reachable(),
    ensures
        parse(encode_utf8(as_chars(save_text(state, with_whitespace)))) == Ok::<
            BoardState,
            LoadGameError,
        >(state),
{
    let text = save_text(state, with_whitespace);
    lemma_save_text_counts(state, with_whitespace);
    lemma_plain_text_encodes(text);
    lemma_head_reads_back(state);
    let records = history_text(state.history, false);
    lemma_history_text_shape(state.history);
    lemma_replay_plays(state.opening(), state.history, state.history.len() as int);
    assert(state.history.take(state.history.len() as int) =~= state.history);
    assert(records.len() as int / 3 == state.history.len());
}

/// Whatever text reads as a game reads as a state that legal play has
/// reached.
pub proof fn lemma_loaded_is_reachable(text: Seq<u8>)
    requires
        parse(text) is Ok,
    ensures
        parse(text)->Ok_0.reachable(),
{
    let bytes = significant(text);
    let explicit = is_layout_symbol(bytes[0]);
    let squares = if explicit {
        parse_layout(bytes).unwrap()
    } else {
        crate::game::rules::standard_squares()
    };
    let rest = if explicit {
        bytes.skip(25)
    } else {
        bytes
    };
    let cards = parse_cards(rest).unwrap();
    let records = rest.skip(5);
    let opening = BoardState::start(!explicit, squares, cards);
    lemma_replayed_is_played(opening, records, records.len() as int / 3);
    let history = choose|history: Seq<GameMove>|
        opening.play(history) == Some(parse(text)->Ok_0) && opening.history + history
            == parse(text)->Ok_0.history;
    assert(opening.position.cards() =~= cards);
    lemma_play_keeps_shape(opening, history);
    assert(opening.history + history =~= history);
}

/// What reading records gives, legal play gives too.
proof fn lemma_replayed_is_played(start: BoardState, records: Seq<u8>, n: int)
    requires
        replay_records(start, records, n) is Ok,
    ensures
        exists|history: Seq<GameMove>|
            start.play(history) == Some(replay_records(start, records, n)->Ok_0)
                && start.history + history == replay_records(start, records, n)->Ok_0.history,
    decreases n,
{
    if n <= 0 {
        let none = Seq::<GameMove>::empty();
        assert(start.play(none) == Some(start));
        assert(start.history + none =~= start.history);
    } else {
        lemma_replayed_is_played(start, records, n - 1);
        let before = replay_records(start, records, n - 1)->Ok_0;
        let earlier = choose|history: Seq<GameMove>|
            start.play(history) == Some(before) && start.history + history == before.history;
        let card = card_of_letter(records[3 * (n - 1)]).unwrap();
        let from = square_of_letter(records[3 * (n - 1) + 1]).unwrap();
        let to = square_of_letter(records[3 * (n - 1) + 2]).unwrap();
        let m = before.position.move_of(card, from, to);
        let history = earlier.push(m);
        assert(history.drop_last() =~= earlier);
        assert(history.last() == m);
        assert(start.play(history) == Some(before.apply(m)));
        assert(start.history + history =~= before.history.push(m));
    }
}

} // verus!
