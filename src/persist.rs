//! The persisted form of a calibration: the variant's tag, then each matrix as
//! its width, height and type code followed by its data bytes, laid out by
//! bincode's standard configuration (little-endian variable-length integers,
//! zigzag for signed ones, a length before each byte string).
use vstd::prelude::*;
use crate::calibration::{
    CalibrationResult, CalibrationVariant, SavedMat, is_camera_matrix, is_coeff_vector,
};

verus! {

#[verifier::external_type_specification]
#[verifier::external_body]
pub struct ExEncodeError(bincode::error::EncodeError);

#[verifier::external_type_specification]
#[verifier::external_body]
pub struct ExDecodeError(bincode::error::DecodeError);

/// The `n` low bytes of `v`, least significant first.
pub open spec fn le_bytes(v: nat, n: nat) -> Seq<u8>
    decreases n,
{
    if n == 0 {
        Seq::empty()
    } else {
        seq![(v % 256) as u8] + le_bytes(v / 256, (n - 1) as nat)
    }
}

/// A variable-length unsigned integer: one byte up to 250, else a marker byte
/// (251, 252, 253) and the value in 2, 4 or 8 little-endian bytes.
pub open spec fn varint(v: nat) -> Seq<u8> {
    if v <= 250 {
        seq![v as u8]
    } else if v <= 0xffff {
        seq![251u8] + le_bytes(v, 2)
    } else if v <= 0xffff_ffff {
        seq![252u8] + le_bytes(v, 4)
    } else {
        seq![253u8] + le_bytes(v, 8)
    }
}

/// A signed integer folded onto the naturals: 0, -1, 1, -2, ... become
/// 0, 1, 2, 3, ...
pub open spec fn zigzag(v: i32) -> nat {
    if v < 0 {
        (-2 * v - 1) as nat
    } else {
        (2 * v) as nat
    }
}

/// One matrix: width, height and type code, then the data with its length.
pub open spec fn mat_bytes(m: (i32, i32, i32, Seq<u8>)) -> Seq<u8> {
    varint(zigzag(m.0)) + varint(zigzag(m.1)) + varint(zigzag(m.2)) + varint(m.3.len()) + m.3
}

/// A persisted calibration: the tag, then the camera matrix, then the
/// distortion coefficients.
pub open spec fn record_bytes(tag: u32, a: (i32, i32, i32, Seq<u8>), b: (i32, i32, i32, Seq<u8>)) -> Seq<u8> {
    varint(tag as nat) + mat_bytes(a) + mat_bytes(b)
}

/// The parts of a persisted calibration as they are read back.
pub type MatParts = (i32, i32, i32, Vec<u8>);

/// A matrix as values: width, height, type code and data.
pub type MatView = (i32, i32, i32, Seq<u8>);

/// Relies on bincode::encode_to_vec with config::standard(): a tuple is its
/// fields in order, a `u32` a varint, an `i32` the varint of its zigzag, a
/// byte vector its length as a varint and then its bytes; the vector writer
/// never fails.
#[verifier::external_body]
fn encode_record(tag: u32, a: &SavedMat, b: &SavedMat) -> (r: Result<
    Vec<u8>,
    bincode::error::EncodeError,
>)
    ensures
        r is Ok,
        r matches Ok(v) ==> v@ == record_bytes(tag, a@, b@),
{
    bincode::encode_to_vec(
        (tag, (a.width, a.height, a.typ, &a.data), (b.width, b.height, b.typ, &b.data)),
        bincode::config::standard(),
    )
}

/// The most bytes of decoded values a record may claim; a longer length
/// field is refused before anything is allocated.
pub const MAX_RECORD_BYTES: usize = 1048576;

/// How far the decoder's count of claimed bytes may run ahead of the input:
/// it counts 4 for the tag and for each of the six integers and 8 for each of
/// the two lengths, where the input holds at least one byte for each.
pub const RECORD_SLACK: usize = 64;

/// Relies on bincode::decode_from_slice with config::standard() and a limit
/// of `MAX_RECORD_BYTES`: it reads back what `encode_to_vec` wrote whenever
/// that stays within the limit, refuses a length beyond the limit with an
/// error instead of allocating it, and reports how many bytes it read.
#[verifier::external_body]
fn decode_record(bytes: &[u8]) -> (r: Result<
    ((u32, MatParts, MatParts), usize),
    bincode::error::DecodeError,
>)
    ensures
        r matches Ok(p) ==> p.1 <= bytes@.len(),
        forall|t: u32, a: MatView, b: MatView|
            bytes@.len() + RECORD_SLACK <= MAX_RECORD_BYTES && #[trigger] record_bytes(t, a, b)
                == bytes@ ==> (r is Ok && r->Ok_0.0.0 == t
                && parts_view(r->Ok_0.0.1) == a && parts_view(r->Ok_0.0.2) == b && r->Ok_0.1
                == bytes@.len()),
{
    bincode::decode_from_slice(bytes, bincode::config::standard().with_limit::<MAX_RECORD_BYTES>())
}

/// Why persisted bytes were not taken back.
#[derive(Clone, Copy, Debug, PartialEq, Eq, Structural)]
pub enum LoadError {
    /// The bytes are not a record at all.
    Corrupt,
    /// A record was read but bytes follow it.
    TrailingBytes,
    /// The tag names no known variant.
    UnknownTag(u32),
    /// The camera matrix is not 3 x 3 64-bit floats.
    BadCameraMatrix,
    /// The distortion coefficients are not a vector of 64-bit floats.
    BadCoefficients,
}

pub open spec fn parts_view(p: MatParts) -> (i32, i32, i32, Seq<u8>) {
    (p.0, p.1, p.2, p.3@)
}

/// The persisted bytes of a calibration.
pub fn serialize(v: &CalibrationVariant) -> (r: Vec<u8>)
    ensures
        r@ == record_bytes(
            v.tag_spec(),
            match v {
                CalibrationVariant::OpenCvCharuco(c) => c.camera(),
            },
            match v {
                CalibrationVariant::OpenCvCharuco(c) => c.coeffs(),
            },
        ),
{
    let tag = v.tag();
    match v {
        CalibrationVariant::OpenCvCharuco(c) => match encode_record(
            tag,
            c.camera_matrix(),
            c.dist_coeffs(),
        ) {
            Ok(bytes) => bytes,
            Err(_) => Vec::new(),
        },
    }
}

/// A calibration from the parts read back: refused if the tag is unknown or a
/// matrix is not of its kind.
pub fn variant_from_parts(tag: u32, a: MatParts, b: MatParts) -> (r: Result<
    CalibrationVariant,
    LoadError,
>)
    ensures
        tag != 0 ==> r == Err::<CalibrationVariant, LoadError>(LoadError::UnknownTag(tag)),
        tag == 0 && !is_camera_matrix(parts_view(a)) ==> r == Err::<
            CalibrationVariant,
            LoadError,
        >(LoadError::BadCameraMatrix),
        tag == 0 && is_camera_matrix(parts_view(a)) && !is_coeff_vector(parts_view(b)) ==> r
            == Err::<CalibrationVariant, LoadError>(LoadError::BadCoefficients),
        tag == 0 && is_camera_matrix(parts_view(a)) && is_coeff_vector(parts_view(b)) ==> (r
            matches Ok(CalibrationVariant::OpenCvCharuco(c)) && c.wf() && c.camera()
            == parts_view(a) && c.coeffs() == parts_view(b)),
{
    if tag != 0 {
        return Err(LoadError::UnknownTag(tag));
    }
    let camera = SavedMat { width: a.0, height: a.1, typ: a.2, data: a.3 };
    let coeffs = SavedMat { width: b.0, height: b.1, typ: b.2, data: b.3 };
    match CalibrationResult::new(camera, coeffs) {
        Ok(c) => Ok(CalibrationVariant::OpenCvCharuco(c)),
        Err(crate::calibration::MatrixError::CameraMatrix) => Err(LoadError::BadCameraMatrix),
        Err(crate::calibration::MatrixError::Coefficients) => Err(LoadError::BadCoefficients),
    }
}

/// Whether persisted bytes stay within the decoder's limit.
pub open spec fn within_limit(bytes: Seq<u8>) -> bool {
    bytes.len() + RECORD_SLACK <= MAX_RECORD_BYTES
}

/// Whether `r` gives back every well-formed calibration whose persisted bytes
/// are `bytes`, where those are within the limit.
pub open spec fn reads_back(bytes: Seq<u8>, r: Result<CalibrationVariant, LoadError>) -> bool {
    within_limit(bytes) ==> forall|c: CalibrationResult|
        c.wf() && #[trigger] record_bytes(0, c.camera(), c.coeffs()) == bytes ==> (r matches Ok(
            CalibrationVariant::OpenCvCharuco(d),
        ) && d.camera() == c.camera() && d.coeffs() == c.coeffs())
}

/// A calibration from its persisted bytes. The bytes that `serialize` wrote
/// for a well-formed calibration give that calibration back, and a record
/// under an unknown tag is refused with that tag, within the decoder's limit;
/// nothing else is taken unless it reads as a whole record of a known tag
/// with matrices of their kind.
pub fn deserialize(bytes: &[u8]) -> (r: Result<CalibrationVariant, LoadError>)
    ensures
        r matches Ok(v) ==> v.wf(),
        reads_back(bytes@, r),
        forall|t: u32, a: MatView, b: MatView|
            t != 0 && within_limit(bytes@) && #[trigger] record_bytes(t, a, b) == bytes@ ==> r
                == Err::<CalibrationVariant, LoadError>(LoadError::UnknownTag(t)),
{
    match decode_record(bytes) {
        Err(_) => Err(LoadError::Corrupt),
        Ok((parts, n)) => {
            if n != bytes.len() {
                return Err(LoadError::TrailingBytes);
            }
            let (tag, a, b) = parts;
            variant_from_parts(tag, a, b)
        },
    }
}

/// Round trip: what `deserialize` returns on the bytes that `serialize`
/// wrote for a well-formed calibration is that calibration, matrix for matrix
/// and byte for byte, as long as those bytes are within the decoder's limit.
pub proof fn lemma_round_trip(v: CalibrationVariant, r: Result<CalibrationVariant, LoadError>)
    requires
        v.wf(),
        within_limit(
            record_bytes(
                v.tag_spec(),
                match v {
                    CalibrationVariant::OpenCvCharuco(c) => c.camera(),
                },
                match v {
                    CalibrationVariant::OpenCvCharuco(c) => c.coeffs(),
                },
            ),
        ),
        reads_back(
            record_bytes(
                v.tag_spec(),
                match v {
                    CalibrationVariant::OpenCvCharuco(c) => c.camera(),
                },
                match v {
                    CalibrationVariant::OpenCvCharuco(c) => c.coeffs(),
                },
            ),
            r,
        ),
    ensures
        r matches Ok(w) && w.wf() && w.tag_spec() == v.tag_spec() && match (v, w) {
            (
                CalibrationVariant::OpenCvCharuco(c),
                CalibrationVariant::OpenCvCharuco(d),
            ) => d.camera() == c.camera() && d.coeffs() == c.coeffs(),
        },
{
    match v {
        CalibrationVariant::OpenCvCharuco(c) => {
            assert(record_bytes(0, c.camera(), c.coeffs()) == record_bytes(0, c.camera(), c.coeffs()));
        },
    }
}

} // verus!
