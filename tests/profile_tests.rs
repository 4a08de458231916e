use image_proc::profile::{RadialProfile, DEFAULT_CONTROL_POINTS};

#[test]
fn edits_are_checked_against_the_range() {
    let mut p = RadialProfile::uniform(DEFAULT_CONTROL_POINTS, 0i32);
    assert_eq!(p.len(), 32);
    assert!(p.edit(5, 7));
    assert_eq!(p.values()[5], 7);
    assert!(p.edit(31, -2));
    assert_eq!(p.values()[31], -2);
    assert!(!p.edit(32, 9));
    assert!(!p.edit(-1, 9));
    assert_eq!(p.values().iter().filter(|v| **v != 0).count(), 2);
}

#[test]
fn a_profile_needs_two_points() {
    assert!(RadialProfile::from_values(vec![1u8]).is_none());
    let p = RadialProfile::from_values(vec![0u8, 3, 0]).unwrap();
    assert_eq!(p.values(), &vec![0, 3, 0]);
}
