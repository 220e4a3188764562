use fast_requests::board::{gather, Board};

#[test]
fn new_board_has_its_slots_and_is_not_complete() {
    let board: Board<u32> = Board::new(3);
    assert_eq!(board.len(), 3);
    assert_eq!(board.into_items(), None);
}

#[test]
fn board_without_slots_is_complete_at_once() {
    let board: Board<u32> = Board::new(0);
    assert_eq!(board.len(), 0);
    assert_eq!(board.into_items(), Some(vec![]));
}

#[test]
fn items_come_out_in_slot_order_not_arrival_order() {
    let mut board: Board<&str> = Board::new(3);
    assert!(board.place(2, "c"));
    assert!(board.place(0, "a"));
    assert!(board.place(1, "b"));
    assert_eq!(board.into_items(), Some(vec!["a", "b", "c"]));
}

#[test]
fn second_report_for_a_slot_is_refused_and_the_first_stays() {
    let mut board: Board<&str> = Board::new(2);
    assert!(board.place(0, "first"));
    assert!(!board.place(0, "second"));
    assert!(board.place(1, "other"));
    assert_eq!(board.into_items(), Some(vec!["first", "other"]));
}

#[test]
fn report_for_no_slot_is_refused() {
    let mut board: Board<u8> = Board::new(2);
    assert!(!board.place(2, 9));
    assert!(!board.place(usize::MAX, 9));
    assert!(board.place(1, 7));
    assert!(board.place(0, 6));
    assert_eq!(board.into_items(), Some(vec![6, 7]));
}

#[test]
fn board_with_an_empty_slot_gives_nothing() {
    let mut board: Board<u8> = Board::new(3);
    assert!(board.place(0, 1));
    assert!(board.place(2, 3));
    assert_eq!(board.into_items(), None);
}

#[test]
fn gather_of_no_requests_is_empty() {
    let arrivals: Vec<(usize, u8)> = vec![];
    assert_eq!(gather(0, arrivals), Some(vec![]));
}

#[test]
fn gather_gives_the_same_for_every_arrival_order() {
    let orders: Vec<Vec<usize>> = vec![
        vec![0, 1, 2, 3],
        vec![3, 2, 1, 0],
        vec![2, 0, 3, 1],
        vec![1, 3, 0, 2],
    ];
    for order in orders {
        let arrivals: Vec<(usize, String)> =
            order.iter().map(|i| (*i, format!("result {}", i))).collect();
        assert_eq!(
            gather(4, arrivals),
            Some(vec![
                "result 0".to_string(),
                "result 1".to_string(),
                "result 2".to_string(),
                "result 3".to_string(),
            ])
        );
    }
}

#[test]
fn gather_with_a_missing_report_gives_nothing() {
    assert_eq!(gather(3, vec![(0, 'a'), (2, 'c')]), None);
    assert_eq!(gather(1, Vec::<(usize, char)>::new()), None);
}

#[test]
fn gather_passes_over_repeated_and_stray_reports() {
    assert_eq!(gather(2, vec![(1, 'b'), (5, 'x'), (1, 'y'), (0, 'a')]), Some(vec!['a', 'b']));
}

#[test]
fn gather_keeps_equal_items_apart() {
    assert_eq!(gather(3, vec![(1, 7), (2, 7), (0, 7)]), Some(vec![7, 7, 7]));
}

#[test]
fn two_boards_filled_in_turns_do_not_mix() {
    let mut left: Board<&str> = Board::new(2);
    let mut right: Board<&str> = Board::new(3);
    assert!(right.place(2, "r2"));
    assert!(left.place(1, "l1"));
    assert!(right.place(0, "r0"));
    assert!(left.place(0, "l0"));
    assert!(right.place(1, "r1"));
    assert_eq!(left.into_items(), Some(vec!["l0", "l1"]));
    assert_eq!(right.into_items(), Some(vec!["r0", "r1", "r2"]));
}
