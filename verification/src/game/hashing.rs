//! The state hash: a 64-bit FNV-1a digest of what both players can see.

use crate::game::notation::symbol_of_piece;
use crate::game::rules::Position;
use vstd::prelude::*;

verus! {

pub const FNV_OFFSET: u64 = 0xcbf29ce484222325;

pub const FNV_PRIME: u64 = 0x100000001b3;

/// One step of FNV-1a: the byte is folded in, then the hash is multiplied
/// by the prime, modulo 2^64.
pub open spec fn mix_spec(hash: u64, byte: u8) -> u64 {
    (hash ^ (byte as u64)).wrapping_mul(FNV_PRIME)
}

/// The FNV-1a digest of `bytes`.
pub open spec fn digest(bytes: Seq<u8>) -> u64
    decreases bytes.len(),
{
    if bytes.len() == 0 {
        FNV_OFFSET
    } else {
        mix_spec(digest(bytes.drop_last()), bytes.last())
    }
}

/// The byte that stands for the winner in a fingerprint.
pub open spec fn winner_code(winner: Option<bool>) -> u8 {
    match winner {
        None => 0,
        Some(true) => 1,
        Some(false) => 2,
    }
}

/// The bytes that stand for a position: the 25 squares as layout symbols,
/// the turn, the catalog places of red's cards, blue's cards and the
/// transfer card, and the winner.
pub open spec fn fingerprint(p: Position) -> Seq<u8> {
    Seq::new(25, |i: int| symbol_of_piece(p.squares[i])) + seq![
        if p.red_to_move {
            1u8
        } else {
            0u8
        },
        p.red_cards.0.index_spec() as u8,
        p.red_cards.1.index_spec() as u8,
        p.blue_cards.0.index_spec() as u8,
        p.blue_cards.1.index_spec() as u8,
        p.transfer_card.index_spec() as u8,
        winner_code(p.winner),
    ]
}

/// The hash of a position: it depends on the squares, the turn, the cards
/// and the winner, and on nothing else.
pub open spec fn position_hash(p: Position) -> u64 {
    digest(fingerprint(p))
}

/// One step of FNV-1a.
pub fn mix(hash: u64, byte: u8) -> (mixed: u64)
    ensures
        mixed == mix_spec(hash, byte),
{
    (hash ^ (byte as u64)).wrapping_mul(FNV_PRIME)
}

/// The digest of `bytes`.
pub fn digest_of(bytes: &Vec<u8>) -> (hash: u64)
    ensures
        hash == digest(bytes@),
{
    let mut hash = FNV_OFFSET;
    let mut i: usize = 0;
    while i < bytes.len()
        invariant
            i <= bytes@.len(),
            hash == digest(bytes@.take(i as int)),
        decreases bytes.len() - i,
    {
        assert(bytes@.take(i + 1).drop_last() == bytes@.take(i as int));
        hash = mix(hash, bytes[i]);
        i += 1;
    }
    assert(bytes@.take(bytes@.len() as int) == bytes@);
    hash
}

} // verus!
