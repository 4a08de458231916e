use image_proc::calibration::{
    finish_undistort, undistort_job, CalibrationResult, CalibrationVariant, MatrixError, SavedMat,
    MAT_F64,
};
use image_proc::frame::{Frame, Rgb};

fn mat(width: i32, height: i32) -> SavedMat {
    SavedMat { width, height, typ: MAT_F64, data: vec![0; (width * height * 8) as usize] }
}

fn frame(w: u32, h: u32) -> Frame {
    let pixels: Vec<Rgb> =
        (0..w * h).map(|i| Rgb { r: i as u8, g: (i * 2) as u8, b: (i * 3) as u8 }).collect();
    Frame::new(w, h, pixels).unwrap()
}

#[test]
fn result_needs_a_three_by_three_camera_matrix() {
    assert_eq!(CalibrationResult::new(mat(3, 2), mat(5, 1)).err(), Some(MatrixError::CameraMatrix));
    let mut wrong_type = mat(3, 3);
    wrong_type.typ = 5;
    assert_eq!(CalibrationResult::new(wrong_type, mat(5, 1)).err(), Some(MatrixError::CameraMatrix));
}

#[test]
fn result_needs_a_coefficient_vector() {
    assert_eq!(CalibrationResult::new(mat(3, 3), mat(2, 2)).err(), Some(MatrixError::Coefficients));
    assert_eq!(CalibrationResult::new(mat(3, 3), mat(0, 1)).err(), Some(MatrixError::Coefficients));
    assert!(CalibrationResult::new(mat(3, 3), mat(1, 5)).is_ok());
    assert!(!SavedMat { width: -1, height: 3, typ: MAT_F64, data: vec![] }.is_f64_matrix());
    assert!(mat(0, 3).is_f64_matrix());
}

#[test]
fn job_carries_the_frame_as_bgr() {
    let v = CalibrationVariant::OpenCvCharuco(CalibrationResult::new(mat(3, 3), mat(5, 1)).unwrap());
    assert_eq!(v.tag(), 0);
    let f = frame(2, 1);
    let job = undistort_job(&v, &f);
    assert_eq!((job.width, job.height), (2, 1));
    assert_eq!(job.bgr, vec![0, 0, 0, 3, 2, 1]);
    assert_eq!(job.camera_matrix.width, 3);
    assert_eq!(job.dist_coeffs.width, 5);
}

#[test]
fn correction_keeps_the_frame_size() {
    let f = frame(3, 2);
    // output of the right size is taken, read as BGR
    let out_bgr: Vec<u8> = (0..18).collect();
    let g = finish_undistort(f.clone(), 3, 2, &out_bgr);
    assert_eq!((g.width(), g.height()), (3, 2));
    assert_eq!(g.pixel(0, 0), Some(Rgb { r: 2, g: 1, b: 0 }));
    assert_eq!(g.pixel(2, 1), Some(Rgb { r: 17, g: 16, b: 15 }));
    // output of another size is no correction: the frame comes back
    let g = finish_undistort(f.clone(), 2, 3, &out_bgr);
    assert_eq!((g.width(), g.height()), (3, 2));
    assert_eq!(g.pixels(), f.pixels());
    let g = finish_undistort(f.clone(), 3, 2, &vec![0; 17]);
    assert_eq!((g.width(), g.height()), (3, 2));
    assert_eq!(g.pixels(), f.pixels());
}
