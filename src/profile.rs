//! The interactive radial profile: a sequence of correction values at evenly
//! spaced normalized radii, control point `i` of `n` sitting at radius
//! `i / (n - 1)`. Edits replace one control point's value.
use vstd::prelude::*;

verus! {

/// The number of control points of a new profile.
pub const DEFAULT_CONTROL_POINTS: usize = 32;

/// A radial correction profile over values of type `T`.
#[derive(Clone, Debug)]
pub struct RadialProfile<T> {
    values: Vec<T>,
}

impl<T: Copy> RadialProfile<T> {
    pub closed spec fn points(&self) -> Seq<T> {
        self.values@
    }

    /// At least two control points, so that radius 0 and radius 1 are both
    /// control points.
    pub open spec fn wf(&self) -> bool {
        self.points().len() >= 2
    }

    /// A profile of `n` control points, all of value `v`.
    pub fn uniform(n: usize, v: T) -> (r: Self)
        requires
            n >= 2,
        ensures
            r.wf(),
            r.points() == Seq::new(n as nat, |i: int| v),
    {
        let mut values: Vec<T> = Vec::with_capacity(n);
        let mut i: usize = 0;
        while i < n
            invariant
                i <= n,
                values@ == Seq::new(i as nat, |j: int| v),
            decreases n - i,
        {
            values.push(v);
            i = i + 1;
            assert(values@ =~= Seq::new(i as nat, |j: int| v));
        }
        RadialProfile { values }
    }

    /// A profile from its control point values; `None` with fewer than two.
    pub fn from_values(values: Vec<T>) -> (r: Option<Self>)
        ensures
            r is Some <==> values@.len() >= 2,
            r matches Some(p) ==> p.points() == values@,
    {
        if values.len() >= 2 {
            Some(RadialProfile { values })
        } else {
            None
        }
    }

    pub fn values(&self) -> (r: &Vec<T>)
        ensures
            r@ == self.points(),
    {
        &self.values
    }

    pub fn len(&self) -> (r: usize)
        ensures
            r == self.points().len(),
    {
        self.values.len()
    }

    /// Replaces the value of control point `index`, after checking it against
    /// the profile's range; an index out of range changes nothing. Says
    /// whether the edit was made.
    pub fn edit(&mut self, index: i64, value: T) -> (r: bool)
        ensures
            r == (0 <= index < old(self).points().len()),
            r ==> final(self).points() == old(self).points().update(index as int, value),
            !r ==> final(self).points() == old(self).points(),
    {
        if 0 <= index && (index as u64) < self.values.len() as u64 {
            self.values.set(index as usize, value);
            true
        } else {
            false
        }
    }
}

} // verus!
