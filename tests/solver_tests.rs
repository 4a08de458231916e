use image_proc::solver::{corners_found, CalibrationError, CornerObservation, Session, MAX_ITERATIONS};

fn obs(n: usize, w: u32) -> CornerObservation<(i32, i32)> {
    let pts: Vec<(i32, i32)> = (0..n as i32).map(|i| (i, -i)).collect();
    let ids: Vec<i32> = (0..n as i32).map(|i| 10 + i).collect();
    CornerObservation::new(pts, ids, w, 480).unwrap()
}

#[test]
fn solve_without_observations_is_refused() {
    let s: Session<(i32, i32)> = Session::new();
    assert_eq!(s.solve_input().err(), Some(CalibrationError::InsufficientObservations));
    let mut s: Session<(i32, i32)> = Session::new();
    s.accumulate(obs(4, 640));
    s.clear();
    assert_eq!(s.len(), 0);
    assert_eq!(s.solve_input().err(), Some(CalibrationError::InsufficientObservations));
}

#[test]
fn solve_input_keeps_frames_apart_and_in_order() {
    let mut s = Session::new();
    s.accumulate(obs(2, 640));
    s.accumulate(obs(3, 320));
    let input = s.solve_input().unwrap();
    assert_eq!(input.corners, vec![vec![(0, 0), (1, -1)], vec![(0, 0), (1, -1), (2, -2)]]);
    assert_eq!(input.ids, vec![vec![10, 11], vec![10, 11, 12]]);
    assert_eq!((input.width, input.height), (640, 480));
    assert_eq!(MAX_ITERATIONS, 30);
}

#[test]
fn observation_needs_one_index_per_point() {
    assert!(CornerObservation::new(vec![(0, 0)], vec![1, 2], 1, 1).is_none());
    assert_eq!(obs(6, 1).count(), 6);
}

#[test]
fn unusable_frames_are_not_accumulated() {
    let mut s = Session::new();
    assert!(!s.accumulate_if_usable(obs(0, 640), 0));
    assert!(!s.accumulate_if_usable(obs(3, 640), 4));
    assert!(s.accumulate_if_usable(obs(4, 640), 4));
    assert_eq!(s.len(), 1);
}

#[test]
fn failed_interpolation_counts_zero_corners() {
    assert_eq!(corners_found(None), 0);
    assert_eq!(corners_found(Some(-3)), 0);
    assert_eq!(corners_found(Some(0)), 0);
    assert_eq!(corners_found(Some(24)), 24);
}
