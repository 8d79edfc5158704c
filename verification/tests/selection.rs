use piece_selector::selector::{Draw, PieceSelector, Selection};
use piece_selector::types::{CollectedParent, CollectedPiece, Piece};

fn parent(id: &str) -> CollectedParent {
    CollectedParent {
        id: id.to_string(),
        host: None,
        download_ip: None,
        download_tcp_port: None,
        download_quic_port: None,
    }
}

fn piece(number: u32, length: u64, parents: &[&str]) -> CollectedPiece {
    CollectedPiece { number, length, parents: parents.iter().map(|id| parent(id)).collect() }
}

fn interested(count: u32) -> Vec<Piece> {
    (0..count)
        .map(|number| Piece {
            number,
            offset: u64::from(number) * 4,
            length: 4,
            details: Vec::new(),
        })
        .collect()
}

fn selector(count: u32) -> PieceSelector {
    PieceSelector::new("host", "peer", "task", interested(count), Vec::new())
}

fn ids(piece: &CollectedPiece) -> Vec<&str> {
    piece.parents.iter().map(|p| p.id.as_str()).collect()
}

fn expect_selected(selection: Selection) -> CollectedPiece {
    match selection {
        Selection::Selected(piece) => piece,
        other => panic!("no piece was selected: {:?}", other),
    }
}

#[test]
fn new_selector_waits_for_its_interested_pieces() {
    let mut s = selector(3);
    assert_eq!(s.remaining(), 3);
    assert_eq!(s.select_piece(), Selection::Wait);
    assert_eq!(s.remaining(), 3);
}

#[test]
fn selector_without_interested_pieces_is_exhausted() {
    let mut s = selector(0);
    assert!(s.insert_parent_piece(piece(0, 4, &["a"])));
    assert_eq!(s.select_piece(), Selection::Exhausted);
}

#[test]
fn reported_piece_is_handed_out_as_reported() {
    let mut s = selector(2);
    assert!(s.insert_parent_piece(piece(1, 4, &["a", "b"])));
    assert_eq!(s.select_piece(), Selection::Selected(piece(1, 4, &["a", "b"])));
    assert_eq!(s.remaining(), 1);
    assert_eq!(s.select_piece(), Selection::Wait);
}

#[test]
fn second_report_merges_parents_and_keeps_latest_length() {
    let mut s = selector(1);
    assert!(s.insert_parent_piece(piece(0, 4, &["a"])));
    assert!(!s.insert_parent_piece(piece(0, 9, &["b", "a", "c", "b"])));
    let selected = expect_selected(s.select_piece());
    assert_eq!(selected.number, 0);
    assert_eq!(selected.length, 9);
    assert_eq!(ids(&selected), ["a", "b", "c"]);
}

#[test]
fn first_report_is_kept_with_its_repeated_parents() {
    let mut s = selector(1);
    assert!(s.insert_parent_piece(piece(0, 4, &["a", "a"])));
    assert_eq!(ids(&expect_selected(s.select_piece())), ["a", "a"]);
}

#[test]
fn same_report_twice_counts_once() {
    let mut s = selector(1);
    assert!(s.insert_parent_piece(piece(0, 4, &["a", "b"])));
    assert!(!s.insert_parent_piece(piece(0, 4, &["a", "b"])));
    assert_eq!(s.select_piece(), Selection::Selected(piece(0, 4, &["a", "b"])));
}

#[test]
fn report_after_selection_is_dropped() {
    let mut s = selector(2);
    assert!(s.insert_parent_piece(piece(0, 4, &["a"])));
    expect_selected(s.select_piece());
    assert!(!s.insert_parent_piece(piece(0, 4, &["b"])));
    assert_eq!(s.select_piece(), Selection::Wait);
    assert_eq!(s.remaining(), 1);
}

#[test]
fn every_piece_is_handed_out_once() {
    let mut s = selector(50);
    for number in 0..50 {
        assert!(s.insert_parent_piece(piece(number, 4, &["a"])));
    }
    let mut numbers: Vec<u32> = Vec::new();
    for left in (0..50).rev() {
        let selected = expect_selected(s.select_piece());
        assert_eq!(selected, piece(selected.number, 4, &["a"]));
        numbers.push(selected.number);
        assert_eq!(s.remaining(), left);
    }
    numbers.sort();
    assert_eq!(numbers, (0..50).collect::<Vec<u32>>());
    assert_eq!(s.select_piece(), Selection::Exhausted);
}

#[test]
fn no_more_pieces_are_handed_out_than_are_interesting() {
    let mut s = selector(2);
    for number in 10..15 {
        s.insert_parent_piece(piece(number, 4, &["a"]));
    }
    expect_selected(s.select_piece());
    expect_selected(s.select_piece());
    assert_eq!(s.remaining(), 0);
    assert_eq!(s.select_piece(), Selection::Exhausted);
}

#[test]
fn draw_by_index_moves_the_last_number_to_the_gap() {
    let mut s = selector(4);
    for number in [5, 6, 7, 8] {
        assert!(s.insert_parent_piece(piece(number, 4, &["a"])));
    }
    // 5 6 7 8
    assert_eq!(s.select_piece_at(1), Draw::Selected(piece(6, 4, &["a"])));
    // 5 8 7
    assert_eq!(s.select_piece_at(1), Draw::Selected(piece(8, 4, &["a"])));
    // 5 7
    assert_eq!(s.select_piece_at(1), Draw::Selected(piece(7, 4, &["a"])));
    assert_eq!(s.remaining(), 1);
    assert_eq!(s.select_piece_at(0), Draw::Selected(piece(5, 4, &["a"])));
    assert_eq!(s.select_piece(), Selection::Exhausted);
}

#[test]
fn draw_takes_nothing_where_nothing_remains() {
    let mut s = selector(1);
    s.insert_parent_piece(piece(3, 4, &["a"]));
    s.insert_parent_piece(piece(4, 4, &["a"]));
    assert_eq!(s.select_piece_at(0), Draw::Selected(piece(3, 4, &["a"])));
    assert_eq!(s.select_piece_at(0), Draw::Exhausted);
}

#[test]
fn number_can_be_drawn_again_only_after_it_is_new() {
    let mut s = selector(3);
    s.insert_parent_piece(piece(1, 4, &["a"]));
    s.insert_parent_piece(piece(2, 4, &["a"]));
    assert_eq!(s.select_piece_at(0), Draw::Selected(piece(1, 4, &["a"])));
    assert!(!s.insert_parent_piece(piece(1, 4, &["a"])));
    assert!(s.insert_parent_piece(piece(3, 4, &["a"])));
    // 2 3
    assert_eq!(s.select_piece_at(1), Draw::Selected(piece(3, 4, &["a"])));
    assert_eq!(s.select_piece_at(0), Draw::Selected(piece(2, 4, &["a"])));
}

#[test]
fn random_draws_reach_every_place() {
    let mut first: Vec<u32> = Vec::new();
    for _ in 0..200 {
        let mut s = selector(2);
        s.insert_parent_piece(piece(0, 4, &["a"]));
        s.insert_parent_piece(piece(1, 4, &["a"]));
        first.push(expect_selected(s.select_piece()).number);
    }
    assert!(first.contains(&0));
    assert!(first.contains(&1));
}

#[test]
fn pieces_of_children_are_never_selected() {
    let mut s = selector(2);
    s.insert_child_piece(piece(0, 4, &["child"]));
    assert_eq!(s.select_piece(), Selection::Wait);
    assert!(s.insert_parent_piece(piece(0, 4, &["a"])));
    assert_eq!(s.select_piece(), Selection::Selected(piece(0, 4, &["a"])));
}

#[test]
fn shutdown_ends_the_selection() {
    let mut s = selector(3);
    s.insert_parent_piece(piece(0, 4, &["a"]));
    s.shutdown();
    assert_eq!(s.remaining(), 0);
    assert_eq!(s.select_piece(), Selection::Exhausted);
    assert!(s.insert_parent_piece(piece(1, 4, &["a"])));
    assert_eq!(s.select_piece(), Selection::Exhausted);
}

#[test]
fn selection_leaves_the_other_numbers_in_place() {
    for _ in 0..50 {
        let mut s = selector(4);
        let mut left: Vec<u32> = vec![5, 6, 7, 8];
        for number in &left {
            s.insert_parent_piece(piece(*number, 4, &["a"]));
        }
        let selected = expect_selected(s.select_piece()).number;
        let index = left.iter().position(|n| *n == selected).unwrap();
        left.swap_remove(index);
        for number in left.iter().rev() {
            let last = s.remaining() - 1;
            assert_eq!(s.select_piece_at(last), Draw::Selected(piece(*number, 4, &["a"])));
        }
    }
}

#[test]
fn reports_in_either_order_list_the_same_parents() {
    let mut left = selector(1);
    left.insert_parent_piece(piece(0, 4, &["a", "b"]));
    left.insert_parent_piece(piece(0, 6, &["b", "c"]));
    let mut right = selector(1);
    right.insert_parent_piece(piece(0, 6, &["b", "c"]));
    right.insert_parent_piece(piece(0, 4, &["a", "b"]));
    assert_eq!(left.select_piece(), Selection::Selected(piece(0, 6, &["a", "b", "c"])));
    assert_eq!(right.select_piece(), Selection::Selected(piece(0, 4, &["b", "c", "a"])));
}
