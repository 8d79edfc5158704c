use dashmap::DashMap;
use piece_selector::collected::{strike_peer, upsert_piece};
use piece_selector::types::{CollectedParent, CollectedPiece};

fn piece(number: u32, length: u64, parents: &[&str]) -> CollectedPiece {
    CollectedPiece {
        number,
        length,
        parents: parents
            .iter()
            .map(|id| CollectedParent {
                id: id.to_string(),
                host: None,
                download_ip: None,
                download_tcp_port: None,
                download_quic_port: None,
            })
            .collect(),
    }
}

fn map_of(pieces: Vec<CollectedPiece>) -> DashMap<u32, CollectedPiece> {
    let map = DashMap::new();
    for p in pieces {
        map.insert(p.number, p);
    }
    map
}

fn pieces_of(map: DashMap<u32, CollectedPiece>) -> Vec<CollectedPiece> {
    let mut pieces: Vec<CollectedPiece> = map.into_iter().map(|(_, p)| p).collect();
    pieces.sort_by_key(|p| p.number);
    pieces
}

#[test]
fn upsert_keeps_new_pieces_and_merges_known_ones() {
    let mut map = map_of(vec![piece(2, 4, &["a"])]);
    assert!(upsert_piece(&mut map, piece(1, 4, &["b", "b"])));
    assert!(!upsert_piece(&mut map, piece(2, 8, &["b", "a"])));
    assert_eq!(pieces_of(map), vec![piece(1, 4, &["b", "b"]), piece(2, 8, &["a", "b"])]);
}

#[test]
fn strike_drops_pieces_that_only_the_peer_held() {
    let mut map = map_of(vec![
        piece(1, 4, &["c"]),
        piece(2, 4, &["c", "d"]),
        piece(3, 4, &["d"]),
        piece(4, 4, &["c", "c"]),
        piece(5, 4, &["d", "c", "e"]),
    ]);
    strike_peer(&mut map, "c");
    assert_eq!(
        pieces_of(map),
        vec![piece(2, 4, &["d"]), piece(3, 4, &["d"]), piece(5, 4, &["d", "e"])]
    );
}

#[test]
fn strike_keeps_pieces_that_listed_no_parent() {
    let mut map = map_of(vec![piece(1, 4, &[]), piece(2, 4, &["c"])]);
    strike_peer(&mut map, "c");
    assert_eq!(pieces_of(map), vec![piece(1, 4, &[])]);
}

#[test]
fn strike_twice_is_strike_once() {
    let mut map = map_of(vec![piece(1, 4, &["c", "d"]), piece(2, 4, &["c"])]);
    strike_peer(&mut map, "c");
    strike_peer(&mut map, "c");
    assert_eq!(pieces_of(map), vec![piece(1, 4, &["d"])]);
}

#[test]
fn strikes_in_either_order_leave_the_same_pieces() {
    let pieces = || vec![piece(1, 4, &["c", "d"]), piece(2, 4, &["c", "e"]), piece(3, 4, &["d"])];
    let mut left = map_of(pieces());
    strike_peer(&mut left, "c");
    strike_peer(&mut left, "d");
    let mut right = map_of(pieces());
    strike_peer(&mut right, "d");
    strike_peer(&mut right, "c");
    assert_eq!(pieces_of(left), vec![piece(2, 4, &["e"])]);
    assert_eq!(pieces_of(right), vec![piece(2, 4, &["e"])]);
}

#[test]
fn strike_undoes_what_the_peer_reported() {
    let mut map = map_of(vec![piece(1, 4, &["d"]), piece(2, 4, &["e", "d"])]);
    upsert_piece(&mut map, piece(1, 4, &["c"]));
    upsert_piece(&mut map, piece(3, 4, &["c"]));
    upsert_piece(&mut map, piece(3, 4, &["c"]));
    upsert_piece(&mut map, piece(2, 9, &["c"]));
    strike_peer(&mut map, "c");
    assert_eq!(pieces_of(map), vec![piece(1, 4, &["d"]), piece(2, 9, &["e", "d"])]);
}
