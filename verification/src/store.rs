//! The concurrent collections that hold the selector's state.
//!
//! A `DashMap` or `DashSet` changes through a shared reference. The selector owns its
//! collections and reaches them through these functions alone, and every function here that
//! changes one takes it by `&mut`: for as long as a collection is borrowed shared, what it
//! holds stays as it is.
use dashmap::{DashMap, DashSet};
use vstd::prelude::*;

use crate::types::{CollectedPiece, Peer};
#[allow(unused_imports)]
use crate::types::{CollectedPieceView, PeerView};

verus! {

/// `dashmap::DashMap`, opaque.
#[verifier::external_type_specification]
#[verifier::external_body]
#[verifier::reject_recursive_types(K)]
#[verifier::reject_recursive_types(V)]
#[verifier::reject_recursive_types(S)]
pub struct ExDashMap<K, V, S>(dashmap::DashMap<K, V, S>);

/// `dashmap::DashSet`, opaque.
#[verifier::external_type_specification]
#[verifier::external_body]
#[verifier::reject_recursive_types(K)]
#[verifier::reject_recursive_types(S)]
pub struct ExDashSet<K, S>(dashmap::DashSet<K, S>);

/// The entries of a map of collected pieces, by piece number.
pub uninterp spec fn pieces_in(map: DashMap<u32, CollectedPiece>) -> Map<u32, CollectedPieceView>;

/// The entries of a map of peers, by peer id.
pub uninterp spec fn peers_in(map: DashMap<String, Peer>) -> Map<Seq<char>, PeerView>;

/// The entries of a map from piece numbers to positions.
pub uninterp spec fn positions_in(map: DashMap<u32, usize>) -> Map<u32, usize>;

/// The members of a set of piece numbers.
pub uninterp spec fn numbers_in(set: DashSet<u32>) -> Set<u32>;

/// `DashMap::new`: the map holds nothing.
#[verifier::external_body]
pub(crate) fn new_piece_map() -> (map: DashMap<u32, CollectedPiece>)
    ensures
        pieces_in(map) == (Map::<u32, CollectedPieceView>::empty()),
{
    DashMap::new()
}

/// `DashMap::insert`: the key is mapped to the value from now on, and the value that it was
/// mapped to before, if any, is handed back.
#[verifier::external_body]
pub(crate) fn insert_piece(
    map: &mut DashMap<u32, CollectedPiece>,
    number: u32,
    piece: CollectedPiece,
) -> (previous: Option<CollectedPiece>)
    ensures
        pieces_in(*final(map)) == pieces_in(*old(map)).insert(number, piece@),
        previous is Some <==> pieces_in(*old(map)).contains_key(number),
        previous matches Some(p) ==> p@ == pieces_in(*old(map))[number],
{
    map.insert(number, piece)
}

/// `DashMap::remove`: the key is mapped to nothing from now on, and the value that it was
/// mapped to before, if any, is handed back.
#[verifier::external_body]
pub(crate) fn remove_piece(map: &mut DashMap<u32, CollectedPiece>, number: u32) -> (removed: Option<
    CollectedPiece,
>)
    ensures
        pieces_in(*final(map)) == pieces_in(*old(map)).remove(number),
        removed is Some <==> pieces_in(*old(map)).contains_key(number),
        removed matches Some(p) ==> p@ == pieces_in(*old(map))[number],
{
    map.remove(&number).map(|entry| entry.1)
}

/// `DashMap::iter`: every key of the map once, in no particular order.
#[verifier::external_body]
pub(crate) fn piece_numbers(map: &DashMap<u32, CollectedPiece>) -> (numbers: Vec<u32>)
    ensures
        numbers@.no_duplicates(),
        forall|n: u32| numbers@.contains(n) <==> pieces_in(*map).contains_key(n),
{
    map.iter().map(|entry| *entry.key()).collect()
}

/// `DashMap::new`: the map holds nothing.
#[verifier::external_body]
pub(crate) fn new_peer_map() -> (map: DashMap<String, Peer>)
    ensures
        peers_in(map) == (Map::<Seq<char>, PeerView>::empty()),
{
    DashMap::new()
}

/// `DashMap::contains_key`: whether the key is mapped to anything. Strings are the same key
/// where they hold the same characters.
#[verifier::external_body]
pub(crate) fn contains_peer(map: &DashMap<String, Peer>, id: &String) -> (found: bool)
    ensures
        found == peers_in(*map).contains_key(id@),
{
    map.contains_key(id)
}

/// `DashMap::insert`: the key is mapped to the value from now on, and the value that it was
/// mapped to before, if any, is handed back.
#[verifier::external_body]
pub(crate) fn insert_peer(map: &mut DashMap<String, Peer>, id: String, peer: Peer) -> (previous:
    Option<Peer>)
    ensures
        peers_in(*final(map)) == peers_in(*old(map)).insert(id@, peer@),
        previous is Some <==> peers_in(*old(map)).contains_key(id@),
        previous matches Some(p) ==> p@ == peers_in(*old(map))[id@],
{
    map.insert(id, peer)
}

/// `DashMap::remove`: the key is mapped to nothing from now on, and the value that it was
/// mapped to before, if any, is handed back.
#[verifier::external_body]
pub(crate) fn remove_peer(map: &mut DashMap<String, Peer>, id: &String) -> (removed: Option<Peer>)
    ensures
        peers_in(*final(map)) == peers_in(*old(map)).remove(id@),
        removed is Some <==> peers_in(*old(map)).contains_key(id@),
        removed matches Some(p) ==> p@ == peers_in(*old(map))[id@],
{
    map.remove(id).map(|entry| entry.1)
}

/// `DashMap::iter`: every key of the map once, in no particular order.
#[verifier::external_body]
pub(crate) fn peer_ids(map: &DashMap<String, Peer>) -> (ids: Vec<String>)
    ensures
        crate::types::string_views(ids@).no_duplicates(),
        forall|id: Seq<char>|
            crate::types::string_views(ids@).contains(id) <==> peers_in(*map).contains_key(id),
{
    map.iter().map(|entry| entry.key().clone()).collect()
}

/// `DashMap::new`: the map holds nothing.
#[verifier::external_body]
pub(crate) fn new_position_map() -> (map: DashMap<u32, usize>)
    ensures
        positions_in(map) == (Map::<u32, usize>::empty()),
{
    DashMap::new()
}

/// `DashMap::contains_key`: whether the key is mapped to anything.
#[verifier::external_body]
pub(crate) fn contains_position(map: &DashMap<u32, usize>, number: u32) -> (found: bool)
    ensures
        found == positions_in(*map).contains_key(number),
{
    map.contains_key(&number)
}

/// `DashMap::insert`: the key is mapped to the value from now on, and the value that it was
/// mapped to before, if any, is handed back.
#[verifier::external_body]
pub(crate) fn insert_position(map: &mut DashMap<u32, usize>, number: u32, position: usize) -> (previous:
    Option<usize>)
    ensures
        positions_in(*final(map)) == positions_in(*old(map)).insert(number, position),
        previous is Some <==> positions_in(*old(map)).contains_key(number),
        previous matches Some(p) ==> p == positions_in(*old(map))[number],
{
    map.insert(number, position)
}

/// `DashMap::remove`: the key is mapped to nothing from now on, and the value that it was
/// mapped to before, if any, is handed back.
#[verifier::external_body]
pub(crate) fn remove_position(map: &mut DashMap<u32, usize>, number: u32) -> (removed: Option<usize>)
    ensures
        positions_in(*final(map)) == positions_in(*old(map)).remove(number),
        removed is Some <==> positions_in(*old(map)).contains_key(number),
        removed matches Some(p) ==> p == positions_in(*old(map))[number],
{
    map.remove(&number).map(|entry| entry.1)
}

/// `DashSet::new`: the set holds nothing.
#[verifier::external_body]
pub(crate) fn new_number_set() -> (set: DashSet<u32>)
    ensures
        numbers_in(set) == Set::<u32>::empty(),
{
    DashSet::new()
}

/// `DashSet::contains`: whether the number is a member.
#[verifier::external_body]
pub(crate) fn contains_number(set: &DashSet<u32>, number: u32) -> (found: bool)
    ensures
        found == numbers_in(*set).contains(number),
{
    set.contains(&number)
}

/// `DashSet::insert`: the number is a member from now on; true where it was none before.
#[verifier::external_body]
pub(crate) fn insert_number(set: &mut DashSet<u32>, number: u32) -> (added: bool)
    ensures
        numbers_in(*final(set)) == numbers_in(*old(set)).insert(number),
        added == !numbers_in(*old(set)).contains(number),
{
    set.insert(number)
}

} // verus!
