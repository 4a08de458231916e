use image_proc::frame::{Frame, Rgb};
use image_proc::warp::{hole_color, radial_correct, CorrectionError, Rasterization, FACTOR_ONE};

fn px(v: u8) -> Rgb {
    Rgb { r: v, g: v, b: 255 - v }
}

fn numbered(w: u32, h: u32) -> Frame {
    let pixels: Vec<Rgb> = (0..w * h).map(|i| px(i as u8)).collect();
    Frame::new(w, h, pixels).unwrap()
}

#[test]
fn zero_profile_reproduces_a_symmetric_frame() {
    // a frame symmetric about both axes
    let vals = [
        [1u8, 2, 2, 1],
        [3, 4, 4, 3],
        [3, 4, 4, 3],
        [1, 2, 2, 1],
    ];
    let pixels: Vec<Rgb> = vals.iter().flatten().map(|v| px(*v)).collect();
    let f = Frame::new(4, 4, pixels).unwrap();
    let factors = vec![FACTOR_ONE; 16];
    let out = radial_correct(&f, &factors, Rasterization::NearestNeighbor).unwrap();
    assert_eq!(out.width(), 4);
    assert_eq!(out.height(), 4);
    assert_eq!(out.pixels(), f.pixels());
}

#[test]
fn unit_factors_keep_any_frame() {
    let f = numbered(5, 3);
    let out = radial_correct(&f, &vec![FACTOR_ONE; 15], Rasterization::NearestNeighbor).unwrap();
    assert_eq!(out.pixels(), f.pixels());
}

#[test]
fn linear_mode_is_not_implemented() {
    let f = numbered(2, 2);
    let r = radial_correct(&f, &vec![FACTOR_ONE; 4], Rasterization::Linear);
    assert_eq!(r.err(), Some(CorrectionError::NotImplemented));
}

#[test]
fn factor_map_must_cover_every_pixel() {
    let f = numbered(2, 2);
    let r = radial_correct(&f, &vec![FACTOR_ONE; 3], Rasterization::NearestNeighbor);
    assert_eq!(r.err(), Some(CorrectionError::FactorCount));
}

#[test]
fn shrinking_leaves_holes_and_overlaps() {
    // 3 x 1, centre at x = 1; factor one half: pixel 0 lands at 0.5, which
    // rounds to 1 and is then overwritten by pixel 1; pixel 2 lands at 1.5,
    // which rounds to 2. Position 0 stays a hole.
    let f = numbered(3, 1);
    let half = FACTOR_ONE / 2;
    let out = radial_correct(&f, &vec![half; 3], Rasterization::NearestNeighbor).unwrap();
    let hole = hole_color();
    assert_eq!(out.pixels(), &vec![hole, px(1), px(2)]);

    // 5 x 1, centre at x = 2; factor one quarter: pixels land at 1.5, 1.75,
    // 2, 2.25, 2.5, rounding to 2, 2, 2, 2, 3. Pixel 3 is the last on 2.
    let f = numbered(5, 1);
    let quarter = FACTOR_ONE / 4;
    let out = radial_correct(&f, &vec![quarter; 5], Rasterization::NearestNeighbor).unwrap();
    assert_eq!(out.pixels(), &vec![hole, hole, px(3), px(4), hole]);
}

#[test]
fn growing_clips_pixels_outside_the_frame() {
    // 4 x 1, centre at x = 1.5; factor two: offsets -1.5, -0.5, 0.5, 1.5
    // become -3, -1, 1, 3, landing at -1.5, 0.5, 2.5, 4.5 -> -2, 1, 3, 5.
    let f = numbered(4, 1);
    let out =
        radial_correct(&f, &vec![2 * FACTOR_ONE; 4], Rasterization::NearestNeighbor).unwrap();
    let hole = hole_color();
    assert_eq!(out.pixels(), &vec![hole, px(1), hole, px(2)]);
}

#[test]
fn negative_factor_mirrors_through_the_centre() {
    let f = numbered(3, 3);
    let out = radial_correct(&f, &vec![-FACTOR_ONE; 9], Rasterization::NearestNeighbor).unwrap();
    let expected: Vec<Rgb> = (0..9).rev().map(|i| px(i as u8)).collect();
    assert_eq!(out.pixels(), &expected);
}

#[test]
fn per_pixel_factors_apply_to_their_own_pixel() {
    // only pixel 0 of a 3 x 1 frame moves: factor zero sends it to the centre,
    // where pixel 1 then overwrites it
    let f = numbered(3, 1);
    let out = radial_correct(&f, &vec![0, FACTOR_ONE, FACTOR_ONE], Rasterization::NearestNeighbor)
        .unwrap();
    assert_eq!(out.pixels(), &vec![hole_color(), px(1), px(2)]);
}

#[test]
fn empty_frame_stays_empty() {
    let f = Frame::new(0, 0, vec![]).unwrap();
    let out = radial_correct(&f, &vec![], Rasterization::NearestNeighbor).unwrap();
    assert_eq!(out.width(), 0);
    assert!(out.pixels().is_empty());
}
