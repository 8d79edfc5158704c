use piece_selector::parents::lists_parent;
use piece_selector::types::{CollectedParent, CollectedPiece};

fn parent(id: &str, ip: &str) -> CollectedParent {
    CollectedParent {
        id: id.to_string(),
        host: None,
        download_ip: Some(ip.to_string()),
        download_tcp_port: None,
        download_quic_port: None,
    }
}

fn piece(length: u64, parents: Vec<CollectedParent>) -> CollectedPiece {
    CollectedPiece { number: 3, length, parents }
}

#[test]
fn merge_keeps_known_parents_and_adds_missing_ones() {
    let mut known = piece(4, vec![parent("a", "1"), parent("b", "2")]);
    known.merge(piece(5, vec![parent("b", "3"), parent("c", "4"), parent("c", "5")]));
    assert_eq!(
        known,
        piece(5, vec![parent("a", "1"), parent("b", "2"), parent("c", "4")])
    );
}

#[test]
fn merge_with_no_parents_changes_the_length_alone() {
    let mut known = piece(4, vec![parent("a", "1")]);
    known.merge(piece(0, Vec::new()));
    assert_eq!(known, piece(0, vec![parent("a", "1")]));
}

#[test]
fn merge_twice_is_merge_once() {
    let mut once = piece(4, vec![parent("a", "1")]);
    once.merge(piece(6, vec![parent("b", "2"), parent("a", "9")]));
    let mut twice = piece(4, vec![parent("a", "1")]);
    twice.merge(piece(6, vec![parent("b", "2"), parent("a", "9")]));
    twice.merge(piece(6, vec![parent("b", "2"), parent("a", "9")]));
    assert_eq!(once, twice);
}

#[test]
fn strike_takes_out_every_parent_of_the_id() {
    let mut p = piece(4, vec![parent("a", "1"), parent("b", "2"), parent("a", "3")]);
    p.strike(&"a".to_string());
    assert_eq!(p, piece(4, vec![parent("b", "2")]));
    p.strike(&"a".to_string());
    assert_eq!(p, piece(4, vec![parent("b", "2")]));
    p.strike(&"b".to_string());
    assert_eq!(p, piece(4, Vec::new()));
}

#[test]
fn listed_parents_are_found_by_id() {
    let parents = vec![parent("a", "1"), parent("b", "2")];
    assert!(lists_parent(&parents, &"b".to_string()));
    assert!(!lists_parent(&parents, &"c".to_string()));
    assert!(!lists_parent(&Vec::new(), &"a".to_string()));
}
