use onitama::cards;
use onitama::cards::{card_identifier, draw_cards, index_of_card, Card, ALL_CARDS, ALL_CARDS_IDENT};
use onitama::game::Pos;

#[test]
fn catalog_order_and_letters() {
    assert_eq!(ALL_CARDS.len(), 16);
    assert_eq!(&ALL_CARDS_IDENT, b"BCQKDELFGHMXORUT");
    for (i, card) in ALL_CARDS.iter().enumerate() {
        assert_eq!(index_of_card(card), i);
        assert_eq!(card_identifier(card), ALL_CARDS_IDENT[i]);
    }
    assert_eq!(ALL_CARDS[0], cards::BOAR);
    assert_eq!(ALL_CARDS[11], cards::MONKEY);
    assert_eq!(ALL_CARDS[15], cards::TIGER);
    assert_eq!(card_identifier(&cards::CRAB), b'Q');
    assert_eq!(card_identifier(&cards::CRANE), b'K');
    assert_eq!(card_identifier(&cards::MONKEY), b'X');
    assert_eq!(card_identifier(&cards::ROOSTER), b'U');
}

#[test]
fn offsets_of_some_cards() {
    assert_eq!(cards::BOAR.offsets(), &[Pos(-1, 0), Pos(0, -1), Pos(0, 1)]);
    assert_eq!(cards::TIGER.offsets(), &[Pos(-2, 0), Pos(1, 0)]);
    assert_eq!(
        cards::DRAGON.offsets(),
        &[Pos(-1, -2), Pos(1, -1), Pos(1, 1), Pos(-1, 2)]
    );
    assert_eq!(cards::TIGER.rev_offsets(), &[Pos(2, 0), Pos(-1, 0)]);
    assert_eq!(cards::RABBIT.rev_offsets(), &[Pos(-1, 1), Pos(1, -1), Pos(0, -2)]);
}

#[test]
fn rev_offsets_mirror_offsets() {
    for card in ALL_CARDS.iter() {
        let offsets = card.offsets();
        let mirrored = card.rev_offsets();
        assert!(!offsets.is_empty());
        assert!(offsets.len() <= cards::LARGEST_CARD);
        assert_eq!(offsets.len(), mirrored.len());
        for (a, b) in offsets.iter().zip(mirrored.iter()) {
            assert_eq!(Pos(-a.0, -a.1), *b);
        }
    }
}

#[test]
fn draw_cards_takes_from_what_is_left() {
    assert_eq!(
        draw_cards([0, 0, 0, 0, 0]),
        [Card::Boar, Card::Cobra, Card::Crab, Card::Crane, Card::Dragon]
    );
    assert_eq!(
        draw_cards([15, 0, 13, 0, 11]),
        [Card::Tiger, Card::Boar, Card::Rooster, Card::Cobra, Card::Rabbit]
    );
    assert_eq!(
        draw_cards([4, 4, 4, 4, 4]),
        [Card::Dragon, Card::Eel, Card::Elephant, Card::Frog, Card::Goose]
    );
}

#[test]
fn random_cards_are_five_different_cards() {
    for _ in 0..50 {
        let cards = cards::random_cards();
        for i in 0..5 {
            for j in (i + 1)..5 {
                assert_ne!(cards[i], cards[j]);
            }
        }
    }
}

#[test]
fn random_cards_vary() {
    let first = cards::random_cards();
    let mut varied = false;
    for _ in 0..200 {
        if cards::random_cards() != first {
            varied = true;
        }
    }
    assert!(varied);
}
