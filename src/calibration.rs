//! Calibration results: the camera matrix and the distortion coefficients,
//! each kept as the raw bytes of a matrix of 64-bit floats, and the tagged
//! variant that carries them.
use vstd::prelude::*;
use crate::frame::{Frame, bgr_at};

verus! {

/// The element type code of a single-channel matrix of 64-bit floats.
pub const MAT_F64: i32 = 6;

/// A matrix as raw bytes: its size, its element type code and its data.
#[derive(Clone, Debug)]
pub struct SavedMat {
    pub width: i32,
    pub height: i32,
    pub typ: i32,
    pub data: Vec<u8>,
}

impl View for SavedMat {
    type V = (i32, i32, i32, Seq<u8>);

    open spec fn view(&self) -> (i32, i32, i32, Seq<u8>) {
        (self.width, self.height, self.typ, self.data@)
    }
}

/// A matrix of 64-bit floats whose data holds eight bytes per element.
pub open spec fn is_f64_matrix(m: (i32, i32, i32, Seq<u8>)) -> bool {
    m.0 >= 0 && m.1 >= 0 && m.2 == MAT_F64 && m.3.len() == 8 * (m.0 * m.1)
}

/// A camera matrix: 3 x 3 64-bit floats.
pub open spec fn is_camera_matrix(m: (i32, i32, i32, Seq<u8>)) -> bool {
    is_f64_matrix(m) && m.0 == 3 && m.1 == 3
}

/// A distortion vector: one row or one column of at least one 64-bit float.
pub open spec fn is_coeff_vector(m: (i32, i32, i32, Seq<u8>)) -> bool {
    is_f64_matrix(m) && (m.0 == 1 || m.1 == 1) && m.0 >= 1 && m.1 >= 1
}

impl SavedMat {
    /// Whether this is a matrix of 64-bit floats with consistent data.
    pub fn is_f64_matrix(&self) -> (r: bool)
        ensures
            r == is_f64_matrix(self@),
    {
        if self.width < 0 || self.height < 0 || self.typ != MAT_F64 {
            return false;
        }
        proof {
            assert(self.width * self.height <= i32::MAX * i32::MAX) by (nonlinear_arith)
                requires
                    0 <= self.width,
                    0 <= self.height,
            ;
        }
        let n: u128 = 8 * (self.width as u128 * self.height as u128);
        self.data.len() as u128 == n
    }
}

/// Why a calibration result was refused.
#[derive(Clone, Copy, Debug, PartialEq, Eq, Structural)]
pub enum MatrixError {
    /// The camera matrix is not 3 x 3 64-bit floats.
    CameraMatrix,
    /// The distortion coefficients are not a vector of 64-bit floats.
    Coefficients,
}

/// A solved camera: its intrinsic matrix and its distortion coefficients,
/// which travel together.
#[derive(Clone, Debug)]
pub struct CalibrationResult {
    camera_matrix: SavedMat,
    dist_coeffs: SavedMat,
}

impl CalibrationResult {
    pub closed spec fn camera(&self) -> (i32, i32, i32, Seq<u8>) {
        self.camera_matrix@
    }

    pub closed spec fn coeffs(&self) -> (i32, i32, i32, Seq<u8>) {
        self.dist_coeffs@
    }

    pub open spec fn wf(&self) -> bool {
        is_camera_matrix(self.camera()) && is_coeff_vector(self.coeffs())
    }

    /// A result from its two matrices, refused unless the camera matrix is
    /// 3 x 3 and the coefficients a vector, both of 64-bit floats.
    pub fn new(camera_matrix: SavedMat, dist_coeffs: SavedMat) -> (r: Result<
        CalibrationResult,
        MatrixError,
    >)
        ensures
            !is_camera_matrix(camera_matrix@) ==> r == Err::<CalibrationResult, MatrixError>(
                MatrixError::CameraMatrix,
            ),
            is_camera_matrix(camera_matrix@) && !is_coeff_vector(dist_coeffs@) ==> r == Err::<
                CalibrationResult,
                MatrixError,
            >(MatrixError::Coefficients),
            is_camera_matrix(camera_matrix@) && is_coeff_vector(dist_coeffs@) ==> (r matches Ok(
                c,
            ) && c.wf() && c.camera() == camera_matrix@ && c.coeffs() == dist_coeffs@),
    {
        if !(camera_matrix.is_f64_matrix() && camera_matrix.width == 3
            && camera_matrix.height == 3) {
            return Err(MatrixError::CameraMatrix);
        }
        if !(dist_coeffs.is_f64_matrix() && (dist_coeffs.width == 1 || dist_coeffs.height == 1)
            && dist_coeffs.width >= 1 && dist_coeffs.height >= 1) {
            return Err(MatrixError::Coefficients);
        }
        Ok(CalibrationResult { camera_matrix, dist_coeffs })
    }

    pub fn camera_matrix(&self) -> (r: &SavedMat)
        ensures
            r@ == self.camera(),
    {
        &self.camera_matrix
    }

    pub fn dist_coeffs(&self) -> (r: &SavedMat)
        ensures
            r@ == self.coeffs(),
    {
        &self.dist_coeffs
    }
}

/// A calibration strategy and its data.
#[derive(Clone, Debug)]
pub enum CalibrationVariant {
    /// A pinhole model solved from a board of fiducial markers.
    OpenCvCharuco(CalibrationResult),
}

impl CalibrationVariant {
    pub open spec fn wf(&self) -> bool {
        match self {
            CalibrationVariant::OpenCvCharuco(c) => c.wf(),
        }
    }

    /// The variant's tag in the persisted form.
    pub open spec fn tag_spec(&self) -> u32 {
        match self {
            CalibrationVariant::OpenCvCharuco(_) => 0,
        }
    }

    pub fn tag(&self) -> (r: u32)
        ensures
            r == self.tag_spec(),
    {
        match self {
            CalibrationVariant::OpenCvCharuco(_) => 0,
        }
    }
}

/// What the undistortion transform is handed: the frame as packed BGR bytes,
/// its size, and the model's two matrices.
pub struct UndistortJob<'a> {
    pub width: u32,
    pub height: u32,
    pub bgr: Vec<u8>,
    pub camera_matrix: &'a SavedMat,
    pub dist_coeffs: &'a SavedMat,
}

/// First half of applying a calibration to a frame: chooses the correction
/// by the variant's tag and prepares its input.
pub fn undistort_job<'a>(variant: &'a CalibrationVariant, frame: &Frame) -> (r: UndistortJob<'a>)
    requires
        frame.wf(),
        3 * frame.px().len() <= usize::MAX,
    ensures
        r.width == frame.w(),
        r.height == frame.h(),
        r.bgr@.len() == 3 * frame.px().len(),
        forall|i: int| 0 <= i < frame.px().len() ==> #[trigger] bgr_at(r.bgr@, i) == frame.px()[i],
        match variant {
            CalibrationVariant::OpenCvCharuco(c) => r.camera_matrix@ == c.camera()
                && r.dist_coeffs@ == c.coeffs(),
        },
{
    match variant {
        CalibrationVariant::OpenCvCharuco(c) => UndistortJob {
            width: frame.width(),
            height: frame.height(),
            bgr: frame.to_bgr_bytes(),
            camera_matrix: c.camera_matrix(),
            dist_coeffs: c.dist_coeffs(),
        },
    }
}

/// Second half: the corrected frame from the transform's BGR output. The
/// result always has the input's width and height; where the output does not
/// hold three bytes per pixel of that size, no correction is available and the
/// frame comes back as it was.
pub fn finish_undistort(frame: Frame, out_width: u32, out_height: u32, out_bgr: &Vec<u8>) -> (r:
    Frame)
    requires
        frame.wf(),
    ensures
        r.wf(),
        r.w() == frame.w(),
        r.h() == frame.h(),
        out_width == frame.w() && out_height == frame.h() && out_bgr@.len() == 3 * (frame.w()
            * frame.h()) ==> forall|i: int|
            0 <= i < r.px().len() ==> #[trigger] r.px()[i] == bgr_at(out_bgr@, i),
        !(out_width == frame.w() && out_height == frame.h() && out_bgr@.len() == 3 * (frame.w()
            * frame.h())) ==> r.px() == frame.px(),
{
    if out_width != frame.width() || out_height != frame.height() {
        return frame;
    }
    match Frame::from_bgr_bytes(out_width, out_height, out_bgr) {
        Some(f) => f,
        None => frame,
    }
}

} // verus!
