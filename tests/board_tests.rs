use image_proc::board::{BoardError, FiducialBoard};

#[test]
fn standard_board_declares_fifty_markers() {
    let b = FiducialBoard::standard();
    assert_eq!((b.columns(), b.rows()), (10, 10));
    assert_eq!((b.square_um(), b.marker_um()), (254000, 177800));
    assert_eq!(b.marker_count(), 50);
    assert_eq!(b.corner_count(), 81);
    assert_eq!(b.detection_capacity(), 100);
}

#[test]
fn odd_boards_round_the_marker_count_down() {
    let b = FiducialBoard::describe(5, 7, 1000, 700).unwrap();
    assert_eq!(b.marker_count(), 17);
    assert_eq!(b.corner_count(), 24);
}

#[test]
fn board_descriptions_are_checked() {
    assert_eq!(FiducialBoard::describe(1, 10, 10, 7).err(), Some(BoardError::TooFewSquares));
    assert_eq!(FiducialBoard::describe(10, 0, 10, 7).err(), Some(BoardError::TooFewSquares));
    assert_eq!(FiducialBoard::describe(10, 10, 10, 0).err(), Some(BoardError::EmptyMarker));
    assert_eq!(FiducialBoard::describe(10, 10, 10, 10).err(), Some(BoardError::MarkerTooLarge));
    assert!(FiducialBoard::describe(2, 2, 10, 9).is_ok());
}
