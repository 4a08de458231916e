//! The calibration session: corner observations accumulated frame by frame,
//! and what the solver is handed. `P` is the image point type of the numeric
//! back end.
use vstd::prelude::*;

verus! {

/// The solver stops after this many iterations at most.
pub const MAX_ITERATIONS: i32 = 30;

/// Why a solve was not attempted.
#[derive(Clone, Copy, Debug, PartialEq, Eq, Structural)]
pub enum CalibrationError {
    /// No frame has been accumulated.
    InsufficientObservations,
}

/// The corners found in one frame: image points with the board corner index
/// of each, and the frame's size.
#[derive(Clone, Debug)]
pub struct CornerObservation<P> {
    corners: Vec<P>,
    ids: Vec<i32>,
    width: u32,
    height: u32,
}

impl<P> CornerObservation<P> {
    pub closed spec fn points(&self) -> Seq<P> {
        self.corners@
    }

    pub closed spec fn corner_ids(&self) -> Seq<i32> {
        self.ids@
    }

    pub closed spec fn size(&self) -> (u32, u32) {
        (self.width, self.height)
    }

    /// An observation; `None` unless every point has exactly one index.
    pub fn new(corners: Vec<P>, ids: Vec<i32>, width: u32, height: u32) -> (r: Option<Self>)
        ensures
            r is Some <==> corners@.len() == ids@.len(),
            r matches Some(o) ==> o.points() == corners@ && o.corner_ids() == ids@ && o.size() == (
            width, height),
    {
        if corners.len() == ids.len() {
            Some(CornerObservation { corners, ids, width, height })
        } else {
            None
        }
    }

    /// The number of corners found.
    pub fn count(&self) -> (r: usize)
        ensures
            r == self.points().len(),
    {
        self.corners.len()
    }
}

/// The number of corners an interpolation reported, or 0 where it could not
/// proceed.
pub fn corners_found(outcome: Option<i32>) -> (r: u32)
    ensures
        r == match outcome {
            Some(n) => if n > 0 {
                n as int
            } else {
                0
            },
            None => 0,
        },
{
    match outcome {
        Some(n) => if n > 0 {
            n as u32
        } else {
            0
        },
        None => 0,
    }
}

/// What the solver is handed: per frame its points and their corner
/// indices, and the image size of the first frame.
pub struct SolveInput<P> {
    pub corners: Vec<Vec<P>>,
    pub ids: Vec<Vec<i32>>,
    pub width: u32,
    pub height: u32,
}

/// The observations of one calibration session, in the order accumulated.
#[derive(Clone, Debug)]
pub struct Session<P> {
    observations: Vec<CornerObservation<P>>,
}

fn copy_points<P: Copy>(v: &Vec<P>) -> (r: Vec<P>)
    ensures
        r@ == v@,
{
    let mut r: Vec<P> = Vec::with_capacity(v.len());
    let mut i: usize = 0;
    while i < v.len()
        invariant
            i <= v@.len(),
            r@ == v@.subrange(0, i as int),
        decreases v@.len() - i,
    {
        r.push(v[i]);
        i = i + 1;
        assert(r@ =~= v@.subrange(0, i as int));
    }
    assert(r@ =~= v@);
    r
}

impl<P: Copy> Session<P> {
    pub closed spec fn obs(&self) -> Seq<CornerObservation<P>> {
        self.observations@
    }

    pub fn new() -> (r: Self)
        ensures
            r.obs() == Seq::<CornerObservation<P>>::empty(),
    {
        Session { observations: Vec::new() }
    }

    /// The number of frames accumulated.
    pub fn len(&self) -> (r: usize)
        ensures
            r == self.obs().len(),
    {
        self.observations.len()
    }

    /// Adds one frame's observation.
    pub fn accumulate(&mut self, o: CornerObservation<P>)
        ensures
            final(self).obs() == old(self).obs().push(o),
    {
        self.observations.push(o);
    }

    /// Adds the observation only if it holds at least `min_corners` corners,
    /// and never one with none; says whether it was added.
    pub fn accumulate_if_usable(&mut self, o: CornerObservation<P>, min_corners: usize) -> (r:
        bool)
        ensures
            r == (o.points().len() >= min_corners && o.points().len() > 0),
            r ==> final(self).obs() == old(self).obs().push(o),
            !r ==> final(self).obs() == old(self).obs(),
    {
        let n = o.count();
        if n >= min_corners && n > 0 {
            self.observations.push(o);
            true
        } else {
            false
        }
    }

    /// Forgets every observation.
    pub fn clear(&mut self)
        ensures
            final(self).obs() == Seq::<CornerObservation<P>>::empty(),
    {
        self.observations.clear();
    }

    /// The solver's input: every frame's points and indices, in order, and
    /// the first frame's size. Refused while nothing has been accumulated.
    pub fn solve_input(&self) -> (r: Result<SolveInput<P>, CalibrationError>)
        ensures
            self.obs().len() == 0 <==> r == Err::<SolveInput<P>, CalibrationError>(
                CalibrationError::InsufficientObservations,
            ),
            r matches Ok(s) ==> s.corners@.len() == self.obs().len() && s.ids@.len()
                == self.obs().len() && (s.width, s.height) == self.obs()[0].size() && (forall|
                k: int,
            |
                0 <= k < self.obs().len() ==> #[trigger] s.corners@[k]@ == self.obs()[k].points()
                    && s.ids@[k]@ == self.obs()[k].corner_ids()),
    {
        let n = self.observations.len();
        if n == 0 {
            return Err(CalibrationError::InsufficientObservations);
        }
        let mut corners: Vec<Vec<P>> = Vec::with_capacity(n);
        let mut ids: Vec<Vec<i32>> = Vec::with_capacity(n);
        let mut k: usize = 0;
        while k < n
            invariant
                n == self.obs().len(),
                k <= n,
                corners@.len() == k,
                ids@.len() == k,
                forall|j: int|
                    0 <= j < k ==> #[trigger] corners@[j]@ == self.obs()[j].points() && ids@[j]@
                        == self.obs()[j].corner_ids(),
            decreases n - k,
        {
            let o = &self.observations[k];
            corners.push(copy_points(&o.corners));
            ids.push(copy_points(&o.ids));
            k = k + 1;
        }
        let first = &self.observations[0];
        Ok(SolveInput { corners, ids, width: first.width, height: first.height })
    }
}

} // verus!
