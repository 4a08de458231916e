//! The calibration target: a chessboard of `columns` x `rows` squares with a
//! fiducial marker in every other square. Lengths are in micrometres.
use vstd::prelude::*;

verus! {

/// Side of the raster that a board is rendered to, in pixels.
pub const RENDER_SIZE: u32 = 2400;

/// Margin left blank around a rendered board, in pixels.
pub const RENDER_MARGIN: u32 = 10;

/// Width of each marker's border, in marker bits.
pub const MARKER_BORDER_BITS: u32 = 1;

/// Why a board description was refused.
#[derive(Clone, Copy, Debug, PartialEq, Eq, Structural)]
pub enum BoardError {
    /// A board needs at least two squares each way.
    TooFewSquares,
    /// A marker must have a positive size.
    EmptyMarker,
    /// A marker must be smaller than its square.
    MarkerTooLarge,
}

/// An immutable description of a calibration board.
#[derive(Clone, Copy, Debug, PartialEq, Eq, Structural)]
pub struct FiducialBoard {
    columns: u32,
    rows: u32,
    square_um: u32,
    marker_um: u32,
}

impl FiducialBoard {
    pub closed spec fn cols(&self) -> nat {
        self.columns as nat
    }

    pub closed spec fn nrows(&self) -> nat {
        self.rows as nat
    }

    pub closed spec fn square(&self) -> nat {
        self.square_um as nat
    }

    pub closed spec fn marker(&self) -> nat {
        self.marker_um as nat
    }

    pub open spec fn wf(&self) -> bool {
        self.cols() >= 2 && self.nrows() >= 2 && 0 < self.marker() < self.square()
    }

    /// A board of `columns` x `rows` squares of side `square_um`, each marker
    /// of side `marker_um`.
    pub fn describe(columns: u32, rows: u32, square_um: u32, marker_um: u32) -> (r: Result<
        FiducialBoard,
        BoardError,
    >)
        ensures
            columns < 2 || rows < 2 ==> r == Err::<FiducialBoard, BoardError>(
                BoardError::TooFewSquares,
            ),
            columns >= 2 && rows >= 2 && marker_um == 0 ==> r == Err::<FiducialBoard, BoardError>(
                BoardError::EmptyMarker,
            ),
            columns >= 2 && rows >= 2 && 0 < marker_um && marker_um >= square_um ==> r == Err::<
                FiducialBoard,
                BoardError,
            >(BoardError::MarkerTooLarge),
            columns >= 2 && rows >= 2 && 0 < marker_um < square_um ==> (r matches Ok(b) && b.wf()
                && b.cols() == columns && b.nrows() == rows && b.square() == square_um
                && b.marker() == marker_um),
    {
        if columns < 2 || rows < 2 {
            Err(BoardError::TooFewSquares)
        } else if marker_um == 0 {
            Err(BoardError::EmptyMarker)
        } else if marker_um >= square_um {
            Err(BoardError::MarkerTooLarge)
        } else {
            Ok(FiducialBoard { columns, rows, square_um, marker_um })
        }
    }

    /// The board the session calibrates with: 10 x 10 squares of ten inches,
    /// markers of seven inches.
    pub fn standard() -> (r: FiducialBoard)
        ensures
            r.wf(),
            r.cols() == 10,
            r.nrows() == 10,
            r.square() == 254000,
            r.marker() == 177800,
    {
        FiducialBoard { columns: 10, rows: 10, square_um: 254000, marker_um: 177800 }
    }

    pub fn columns(&self) -> (r: u32)
        ensures
            r == self.cols(),
    {
        self.columns
    }

    pub fn rows(&self) -> (r: u32)
        ensures
            r == self.nrows(),
    {
        self.rows
    }

    pub fn square_um(&self) -> (r: u32)
        ensures
            r == self.square(),
    {
        self.square_um
    }

    pub fn marker_um(&self) -> (r: u32)
        ensures
            r == self.marker(),
    {
        self.marker_um
    }

    /// The number of markers: one in every other square.
    pub fn marker_count(&self) -> (r: u64)
        ensures
            r == (self.cols() * self.nrows()) / 2,
    {
        proof {
            assert(self.cols() * self.nrows() <= u32::MAX * u32::MAX) by (nonlinear_arith);
        }
        (self.columns as u64 * self.rows as u64) / 2
    }

    /// The number of inner chessboard corners, where four squares meet.
    pub fn corner_count(&self) -> (r: u64)
        requires
            self.wf(),
        ensures
            r == (self.cols() - 1) * (self.nrows() - 1),
    {
        proof {
            assert((self.cols() - 1) * (self.nrows() - 1) <= u32::MAX * u32::MAX)
                by (nonlinear_arith)
                requires
                    self.cols() >= 2,
                    self.nrows() >= 2,
                    self.cols() <= u32::MAX,
                    self.nrows() <= u32::MAX,
            ;
        }
        (self.columns as u64 - 1) * (self.rows as u64 - 1)
    }

    /// How many marker detections to make room for: one per square, more
    /// than the board can show.
    pub fn detection_capacity(&self) -> (r: u64)
        ensures
            r == self.cols() * self.nrows(),
            r >= (self.cols() * self.nrows()) / 2,
    {
        proof {
            assert(self.cols() * self.nrows() <= u32::MAX * u32::MAX) by (nonlinear_arith);
        }
        self.columns as u64 * self.rows as u64
    }
}

} // verus!
