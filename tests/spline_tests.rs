// The profile curve sampled by the application: cosine interpolation
// between control points, clamped outside them.
use splines::{Interpolation, Key, Spline};

fn curve() -> Spline<f64, f64> {
    Spline::from_vec(vec![
        Key::new(0.0, 0.0, Interpolation::Cosine),
        Key::new(0.5, 0.3, Interpolation::Cosine),
        Key::new(1.0, 0.0, Interpolation::Cosine),
    ])
}

#[test]
fn profile_curve_hits_its_control_points() {
    let s = curve();
    assert_eq!(s.clamped_sample(0.5), Some(0.3));
    assert_eq!(s.clamped_sample(0.0), Some(0.0));
}

#[test]
fn profile_curve_is_clamped_outside_the_unit_range() {
    let s = curve();
    assert_eq!(s.clamped_sample(1.5), s.clamped_sample(1.0));
    assert_eq!(s.clamped_sample(-0.5), s.clamped_sample(0.0));
    assert_eq!(s.clamped_sample(1.5), Some(0.0));
}
