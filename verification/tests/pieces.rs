use bittorrent::pieces::PieceSet;

#[test]
fn pieces_are_assembled_in_index_order() {
    let mut s = PieceSet::new();
    s.insert(2, vec![5, 6]);
    s.insert(0, vec![1]);
    s.insert(1, vec![2, 3, 4]);
    assert_eq!(s.len(), 3);
    assert_eq!(s.assemble(), vec![1, 2, 3, 4, 5, 6]);
}

#[test]
fn same_piece_twice_is_kept_once() {
    let mut s = PieceSet::new();
    s.insert(1, vec![9]);
    s.insert(1, vec![9]);
    assert_eq!(s.len(), 1);
    // A different content for the same piece is kept, ordered by content.
    s.insert(1, vec![8]);
    s.insert(1, vec![8, 0]);
    assert_eq!(s.len(), 3);
    assert_eq!(s.assemble(), vec![8, 8, 0, 9]);
}

#[test]
fn empty_set() {
    let s = PieceSet::new();
    assert_eq!(s.len(), 0);
    assert!(s.assemble().is_empty());
}
