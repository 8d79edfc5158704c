use piece_selector::index::AvailableIndex;

#[test]
fn numbers_are_available_once() {
    let mut index = AvailableIndex::new();
    index.add_number(4);
    index.add_number(9);
    index.add_number(4);
    assert_eq!(index.pop_number_at(1), 9);
    assert_eq!(index.pop_number_at(0), 4);
    assert_eq!(index.draw(), None);
    index.add_number(9);
    assert_eq!(index.draw(), Some(0));
}

#[test]
fn moved_number_keeps_its_new_place() {
    let mut index = AvailableIndex::new();
    for number in [1, 2, 3] {
        index.add_number(number);
    }
    assert_eq!(index.pop_number_at(0), 1);
    // 3 2
    index.add_number(3);
    assert_eq!(index.pop_number_at(0), 3);
    index.add_number(3);
    // 2 3
    assert_eq!(index.pop_number_at(1), 3);
    assert_eq!(index.pop_number_at(0), 2);
}

#[test]
fn draws_stay_within_the_list() {
    let mut index = AvailableIndex::new();
    assert_eq!(index.draw(), None);
    for number in 0..5 {
        index.add_number(number);
    }
    for _ in 0..100 {
        match index.draw() {
            Some(place) => assert!(place < 5),
            None => panic!("nothing was drawn"),
        }
    }
}
