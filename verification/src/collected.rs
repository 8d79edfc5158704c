//! Maps of collected pieces: taking in a report of a piece, and dropping what a peer reported.
use dashmap::DashMap;
use vstd::prelude::*;

use crate::parents::lists_parent;
use crate::store::{insert_piece, piece_numbers, remove_piece};
use crate::types::CollectedPiece;

verus! {

/// Takes in a report of a piece: keeps it where it is new, and merges it where it is not.
/// Returns whether it is new.
pub fn upsert_piece(map: &mut DashMap<u32, CollectedPiece>, piece: CollectedPiece) -> (is_new: bool)
    ensures
        crate::store::pieces_in(*final(map)) == crate::parents::pieces_with(
            crate::store::pieces_in(*old(map)),
            piece@,
        ),
        is_new == !crate::store::pieces_in(*old(map)).contains_key(piece.number),
{
    let number = piece.number;
    let ghost before = crate::store::pieces_in(*map);
    match remove_piece(map, number) {
        Some(mut existing) => {
            existing.merge(piece);
            let _ = insert_piece(map, number, existing);
            assert(crate::store::pieces_in(*map) =~= crate::parents::pieces_with(before, piece@));
            false
        },
        None => {
            let _ = insert_piece(map, number, piece);
            assert(crate::store::pieces_in(*map) =~= crate::parents::pieces_with(before, piece@));
            true
        },
    }
}

/// Strikes the peer from every piece, and drops the pieces that are left with no parent by that.
pub fn strike_peer(map: &mut DashMap<u32, CollectedPiece>, peer_id: &str)
    ensures
        crate::store::pieces_in(*final(map)) == crate::parents::pieces_without(
            crate::store::pieces_in(*old(map)),
            set![peer_id@],
        ),
{
    let id = peer_id.to_owned();
    let numbers = piece_numbers(map);
    let ghost ids = set![peer_id@];
    let ghost pieces = crate::store::pieces_in(*map);
    let ghost cleaned = crate::parents::pieces_without(pieces, ids);
    let mut i: usize = 0;
    while i < numbers.len()
        invariant
            i <= numbers.len(),
            id@ == peer_id@,
            ids == set![peer_id@],
            cleaned == crate::parents::pieces_without(pieces, ids),
            numbers@.no_duplicates(),
            forall|n: u32| numbers@.contains(n) <==> pieces.contains_key(n),
            forall|n: u32| #[trigger]
                crate::store::pieces_in(*map).contains_key(n) <==> (if numbers@.take(
                    i as int,
                ).contains(n) {
                    cleaned.contains_key(n)
                } else {
                    pieces.contains_key(n)
                }),
            forall|n: u32| #[trigger]
                crate::store::pieces_in(*map).contains_key(n) ==> crate::store::pieces_in(*map)[n]
                    == (if numbers@.take(i as int).contains(n) {
                    cleaned[n]
                } else {
                    pieces[n]
                }),
        decreases numbers.len() - i,
    {
        let number = numbers[i];
        proof {
            assert(numbers@.contains(number));
            crate::lemmas::lemma_take_contains(numbers@, i as int);
        }
        if let Some(mut piece) = remove_piece(map, number) {
            proof {
                crate::parents::lemma_emptied(piece@, ids);
            }
            if lists_parent(&piece.parents, &id) {
                piece.strike(&id);
                if !piece.parents.is_empty() {
                    let _ = insert_piece(map, number, piece);
                }
            } else {
                proof {
                    crate::parents::lemma_without_unlisted(piece@, ids);
                }
                let _ = insert_piece(map, number, piece);
            }
        }
        i += 1;
    }
    proof {
        assert(numbers@.take(numbers@.len() as int) =~= numbers@);
        assert(crate::store::pieces_in(*map) =~= cleaned);
    }
}

} // verus!
