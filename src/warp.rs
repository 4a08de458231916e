//! Radial correction by forward warp: every source pixel is scattered to the
//! nearest integer position of its scaled offset from the image centre, later
//! pixels overwrite earlier ones, and positions that no pixel reached are
//! painted with the hole colour.
use vstd::prelude::*;
use crate::frame::{Frame, Rgb, pixel_count};

verus! {

/// The fixed-point unit of a correction factor: `FACTOR_ONE` stands for 1.0.
pub const FACTOR_ONE: i32 = 65536;

/// How a scattered pixel is placed on the destination grid.
#[derive(Clone, Copy, Debug, PartialEq, Eq, Structural)]
pub enum Rasterization {
    /// Rounded to the nearest destination pixel.
    NearestNeighbor,
    /// Spread over the neighbouring pixels; not available.
    Linear,
}

/// Why a radial correction was not made.
#[derive(Clone, Copy, Debug, PartialEq, Eq, Structural)]
pub enum CorrectionError {
    /// The rasterization mode is not implemented.
    NotImplemented,
    /// The factor map does not hold one factor per pixel.
    FactorCount,
}

/// The colour painted where no source pixel landed.
pub open spec fn hole_spec() -> Rgb {
    Rgb { r: 255, g: 0, b: 255 }
}

pub fn hole_color() -> (r: Rgb)
    ensures
        r == hole_spec(),
{
    Rgb { r: 255, g: 0, b: 255 }
}

/// `n / d` rounded to the nearest integer, halves away from zero.
pub open spec fn round_div(n: int, d: int) -> int {
    if n >= 0 {
        (2 * n + d) / (2 * d)
    } else {
        -((-2 * n + d) / (2 * d))
    }
}

/// Where a coordinate `pos` on an axis of `size` pixels lands when its offset
/// from the axis centre `(size - 1) / 2` is scaled by `c / FACTOR_ONE`.
pub open spec fn dest_coord(pos: int, size: int, c: int) -> int {
    round_div((size - 1) * FACTOR_ONE + (2 * pos + 1 - size) * c, 2 * FACTOR_ONE)
}

/// The destination index of source pixel `i` of a `w` x `h` frame under
/// factor `c`, or `None` where it falls outside the frame.
pub open spec fn dest_index(w: int, h: int, i: int, c: int) -> Option<int> {
    let dx = dest_coord(i % w, w, c);
    let dy = dest_coord(i / w, h, c);
    if 0 <= dx < w && 0 <= dy < h {
        Some(dy * w + dx)
    } else {
        None
    }
}

/// The destination after the first `k` source pixels have been scattered:
/// `None` where nothing was written yet.
pub open spec fn scatter(w: int, h: int, src: Seq<Rgb>, factors: Seq<i32>, k: int) -> Seq<
    Option<Rgb>,
>
    decreases k,
{
    if k <= 0 {
        Seq::new((w * h) as nat, |j: int| None)
    } else {
        let prev = scatter(w, h, src, factors, k - 1);
        match dest_index(w, h, k - 1, factors[k - 1] as int) {
            Some(d) => prev.update(d, Some(src[k - 1])),
            None => prev,
        }
    }
}

/// The corrected pixels: the last pixel scattered to each position, or the
/// hole colour.
pub open spec fn warped(w: int, h: int, src: Seq<Rgb>, factors: Seq<i32>) -> Seq<Rgb> {
    let s = scatter(w, h, src, factors, src.len() as int);
    Seq::new(
        s.len(),
        |j: int|
            match s[j] {
                Some(p) => p,
                None => hole_spec(),
            },
    )
}

proof fn lemma_scatter_len(w: int, h: int, src: Seq<Rgb>, factors: Seq<i32>, k: int)
    requires
        w >= 0,
        h >= 0,
        k <= 0 || (w > 0 && h > 0),
    ensures
        scatter(w, h, src, factors, k).len() == w * h,
    decreases k,
{
    assert(w * h >= 0) by (nonlinear_arith)
        requires
            w >= 0,
            h >= 0,
    ;
    if k > 0 {
        lemma_scatter_len(w, h, src, factors, k - 1);
        lemma_dest_in_range(w, h, k - 1, factors[k - 1] as int);
    }
}

proof fn lemma_dest_in_range(w: int, h: int, i: int, c: int)
    requires
        w > 0,
        h > 0,
    ensures
        dest_index(w, h, i, c) matches Some(d) ==> 0 <= d < w * h,
{
    let dx = dest_coord(i % w, w, c);
    let dy = dest_coord(i / w, h, c);
    if 0 <= dx < w && 0 <= dy < h {
        assert(0 <= dy * w + dx < w * h) by (nonlinear_arith)
            requires
                0 <= dx < w,
                0 <= dy < h,
        ;
    }
}

/// The rounded landing coordinate, as `dest_coord` states it.
fn landing(pos: u32, size: u32, c: i32) -> (r: i128)
    requires
        pos < size,
    ensures
        r == dest_coord(pos as int, size as int, c as int),
{
    let off: i128 = 2 * pos as i128 + 1 - size as i128;
    proof {
        assert(off * c <= 0x2_0000_0000 * 0x8000_0000) by (nonlinear_arith)
            requires
                -0x1_0000_0000 <= off <= 0x2_0000_0000,
                -0x8000_0000 <= c < 0x8000_0000,
        ;
        assert(off * c >= -0x2_0000_0000 * 0x8000_0000) by (nonlinear_arith)
            requires
                -0x1_0000_0000 <= off <= 0x2_0000_0000,
                -0x8000_0000 <= c < 0x8000_0000,
        ;
    }
    let prod: i128 = off * (c as i128);
    let base: i128 = (size as i128 - 1) * 65536;
    let n: i128 = base + prod;
    let d: i128 = 2 * (FACTOR_ONE as i128);
    if n >= 0 {
        let num: u128 = (2 * n + d) as u128;
        let q: u128 = num / (2 * d) as u128;
        assert(q <= num);
        q as i128
    } else {
        assert(-2 * n + d <= 0x10_0000_0000_0000_0000);
        let num: u128 = (-2 * n + d) as u128;
        let q: u128 = num / (2 * d) as u128;
        assert(q <= num);
        -(q as i128)
    }
}

/// Radial correction of `frame`: source pixel `i` is scaled about the image
/// centre by `factors[i] / FACTOR_ONE` and placed on the nearest destination
/// pixel; destinations outside the frame are dropped, a later pixel overwrites
/// an earlier one, and positions that nothing reached get the hole colour.
pub fn radial_correct(frame: &Frame, factors: &Vec<i32>, mode: Rasterization) -> (r: Result<
    Frame,
    CorrectionError,
>)
    requires
        frame.wf(),
    ensures
        mode == Rasterization::Linear ==> r == Err::<Frame, CorrectionError>(
            CorrectionError::NotImplemented,
        ),
        mode == Rasterization::NearestNeighbor && factors@.len() != frame.px().len() ==> r
            == Err::<Frame, CorrectionError>(CorrectionError::FactorCount),
        mode == Rasterization::NearestNeighbor && factors@.len() == frame.px().len() ==> r
            is Ok,
        r matches Ok(f) ==> f.wf() && f.w() == frame.w() && f.h() == frame.h() && f.px()
            == warped(frame.w() as int, frame.h() as int, frame.px(), factors@),
{
    if mode == Rasterization::Linear {
        return Err(CorrectionError::NotImplemented);
    }
    let src = frame.pixels();
    let n: usize = src.len();
    if factors.len() != n {
        return Err(CorrectionError::FactorCount);
    }
    let w: u32 = frame.width();
    let h: u32 = frame.height();
    let ghost wi = w as int;
    let ghost hi = h as int;
    // every destination starts out unset
    let mut out: Vec<Option<Rgb>> = Vec::with_capacity(n);
    let mut k: usize = 0;
    while k < n
        invariant
            k <= n,
            out@ == Seq::new(k as nat, |j: int| None::<Rgb>),
        decreases n - k,
    {
        out.push(None);
        k = k + 1;
        assert(out@ =~= Seq::new(k as nat, |j: int| None::<Rgb>));
    }
    assert(out@ =~= scatter(wi, hi, src@, factors@, 0));
    proof {
        if n > 0 {
            assert(wi > 0 && hi > 0) by (nonlinear_arith)
                requires
                    n == wi * hi,
                    n > 0,
                    wi >= 0,
                    hi >= 0,
            ;
        }
    }
    let mut i: usize = 0;
    let mut x: u32 = 0;
    let mut y: u32 = 0;
    while i < n
        invariant
            wi == w,
            hi == h,
            n == wi * hi,
            n == src@.len(),
            n == factors@.len(),
            i <= n,
            out@ == scatter(wi, hi, src@, factors@, i as int),
            out@.len() == n,
            i < n ==> (x < w && y < h && i == y * wi + x),
        decreases n - i,
    {
        let c: i32 = factors[i];
        let dx: i128 = landing(x, w, c);
        let dy: i128 = landing(y, h, c);
        proof {
            vstd::arithmetic::div_mod::lemma_fundamental_div_mod_converse(
                i as int,
                wi,
                y as int,
                x as int,
            );
            lemma_scatter_len(wi, hi, src@, factors@, i + 1);
        }
        if 0 <= dx && dx < w as i128 && 0 <= dy && dy < h as i128 {
            proof {
                assert(dy * wi + dx < wi * hi) by (nonlinear_arith)
                    requires
                        0 <= dx < wi,
                        0 <= dy < hi,
                ;
                assert(dy * wi <= wi * hi) by (nonlinear_arith)
                    requires
                        0 <= dy < hi,
                        wi >= 0,
                ;
            }
            let row: u64 = dy as u64 * w as u64;
            assert(row + dx < n);
            let d: usize = (row + dx as u64) as usize;
            out.set(d, Some(src[i]));
        }
        proof {
            if x + 1 < w {
                assert(i + 1 < n ==> y * wi + x + 1 == i + 1);
            } else {
                assert((y + 1) * wi == y * wi + wi) by (nonlinear_arith);
                if i + 1 < n {
                    assert(y + 1 < hi) by (nonlinear_arith)
                        requires
                            (y + 1) * wi == i + 1,
                            i + 1 < wi * hi,
                            wi > 0,
                    ;
                }
            }
        }
        i = i + 1;
        if x + 1 < w {
            x = x + 1;
        } else {
            x = 0;
            if y + 1 < h {
                y = y + 1;
            }
        }
    }
    // positions that nothing reached become holes
    let ghost fin = out@;
    let mut pixels: Vec<Rgb> = Vec::with_capacity(n);
    let mut j: usize = 0;
    while j < n
        invariant
            fin == out@,
            fin.len() == n,
            j <= n,
            pixels@.len() == j,
            forall|q: int|
                0 <= q < j ==> #[trigger] pixels@[q] == match fin[q] {
                    Some(p) => p,
                    None => hole_spec(),
                },
        decreases n - j,
    {
        match out[j] {
            Some(p) => pixels.push(p),
            None => pixels.push(hole_color()),
        }
        j = j + 1;
    }
    assert(pixels@ =~= warped(wi, hi, src@, factors@));
    match Frame::new(w, h, pixels) {
        Some(f) => Ok(f),
        None => Err(CorrectionError::FactorCount),
    }
}

proof fn lemma_unit_coord(pos: int, size: int)
    requires
        0 <= pos < size,
    ensures
        dest_coord(pos, size, FACTOR_ONE as int) == pos,
{
    let n = (size - 1) * 65536 + (2 * pos + 1 - size) * 65536;
    assert(n == 131072 * pos);
    vstd::arithmetic::div_mod::lemma_fundamental_div_mod_converse(
        2 * n + 131072,
        262144,
        pos,
        131072,
    );
}

proof fn lemma_unit_index(w: int, h: int, i: int)
    requires
        w > 0,
        h > 0,
        0 <= i < w * h,
    ensures
        dest_index(w, h, i, FACTOR_ONE as int) == Some(i),
{
    vstd::arithmetic::div_mod::lemma_fundamental_div_mod(i, w);
    let x = i % w;
    let y = i / w;
    assert(0 <= x < w);
    assert(0 <= y < h) by (nonlinear_arith)
        requires
            i == w * y + x,
            0 <= x < w,
            0 <= i < w * h,
            w > 0,
    ;
    lemma_unit_coord(x, w);
    lemma_unit_coord(y, h);
    assert(y * w + x == i) by (nonlinear_arith)
        requires
            i == w * y + x,
    ;
}

proof fn lemma_unit_scatter(w: int, h: int, src: Seq<Rgb>, factors: Seq<i32>, k: int)
    requires
        w > 0,
        h > 0,
        src.len() == w * h,
        factors.len() == src.len(),
        forall|i: int| 0 <= i < factors.len() ==> factors[i] == FACTOR_ONE,
        0 <= k <= src.len(),
    ensures
        forall|p: int|
            0 <= p < w * h ==> #[trigger] scatter(w, h, src, factors, k)[p] == if p < k {
                Some(src[p])
            } else {
                None
            },
    decreases k,
{
    lemma_scatter_len(w, h, src, factors, k);
    if k > 0 {
        lemma_unit_scatter(w, h, src, factors, k - 1);
        lemma_unit_index(w, h, k - 1);
        lemma_scatter_len(w, h, src, factors, k - 1);
        assert(factors[k - 1] as int == FACTOR_ONE as int);
        let prev = scatter(w, h, src, factors, k - 1);
        assert(scatter(w, h, src, factors, k) == prev.update(k - 1, Some(src[k - 1])));
    } else {
        assert forall|p: int| 0 <= p < w * h implies #[trigger] scatter(w, h, src, factors, k)[p]
            == None::<Rgb> by {}
    }
}

/// With every factor equal to one (a profile whose correction is zero
/// everywhere) each pixel lands on its own position: the frame comes back
/// unchanged.
pub proof fn lemma_unit_factors_keep_frame(w: nat, h: nat, src: Seq<Rgb>, factors: Seq<i32>)
    requires
        src.len() == w * h,
        factors.len() == src.len(),
        forall|i: int| 0 <= i < factors.len() ==> factors[i] == FACTOR_ONE,
    ensures
        warped(w as int, h as int, src, factors) == src,
{
    if w > 0 && h > 0 {
        lemma_unit_scatter(w as int, h as int, src, factors, src.len() as int);
        lemma_scatter_len(w as int, h as int, src, factors, src.len() as int);
        assert(warped(w as int, h as int, src, factors) =~= src);
    } else {
        assert(w * h == 0) by (nonlinear_arith)
            requires
                !(w > 0 && h > 0),
        ;
        assert(warped(w as int, h as int, src, factors) =~= src);
    }
}

/// Whether source pixel `i` lands on destination `p`.
pub open spec fn lands_on(w: int, h: int, factors: Seq<i32>, i: int, p: int) -> bool {
    dest_index(w, h, i, factors[i] as int) == Some(p)
}

proof fn lemma_scatter_at(w: int, h: int, src: Seq<Rgb>, factors: Seq<i32>, k: int, p: int)
    requires
        w > 0,
        h > 0,
        0 <= k,
        0 <= p < w * h,
    ensures
        (forall|i: int| 0 <= i < k ==> !lands_on(w, h, factors, i, p)) ==> scatter(
            w,
            h,
            src,
            factors,
            k,
        )[p] == None::<Rgb>,
        forall|i: int|
            0 <= i < k && lands_on(w, h, factors, i, p) && (forall|j: int|
                i < j < k ==> !lands_on(w, h, factors, j, p)) ==> scatter(w, h, src, factors, k)[p]
                == Some(src[i]),
    decreases k,
{
    lemma_scatter_len(w, h, src, factors, k);
    if k > 0 {
        lemma_scatter_at(w, h, src, factors, k - 1, p);
        lemma_scatter_len(w, h, src, factors, k - 1);
        lemma_dest_in_range(w, h, k - 1, factors[k - 1] as int);
        let prev = scatter(w, h, src, factors, k - 1);
        if lands_on(w, h, factors, k - 1, p) {
            assert(scatter(w, h, src, factors, k)[p] == Some(src[k - 1]));
        } else {
            assert(scatter(w, h, src, factors, k)[p] == prev[p]);
            assert forall|i: int|
                0 <= i < k && lands_on(w, h, factors, i, p) && (forall|j: int|
                    i < j < k ==> !lands_on(w, h, factors, j, p)) implies scatter(
                w,
                h,
                src,
                factors,
                k,
            )[p] == Some(src[i]) by {
                assert(i < k - 1);
                assert(forall|j: int| i < j < k - 1 ==> !lands_on(w, h, factors, j, p));
            }
        }
    }
}

/// What each corrected pixel holds: the hole colour where no source pixel
/// lands, else the last source pixel, in row order, that lands there.
pub proof fn lemma_warped_pixel(w: nat, h: nat, src: Seq<Rgb>, factors: Seq<i32>, p: int)
    requires
        src.len() == w * h,
        factors.len() == src.len(),
        0 <= p < w * h,
    ensures
        warped(w as int, h as int, src, factors).len() == w * h,
        (forall|i: int| 0 <= i < src.len() ==> !lands_on(w as int, h as int, factors, i, p))
            ==> warped(w as int, h as int, src, factors)[p] == hole_spec(),
        forall|i: int|
            0 <= i < src.len() && lands_on(w as int, h as int, factors, i, p) && (forall|j: int|
                i < j < src.len() ==> !lands_on(w as int, h as int, factors, j, p)) ==> warped(
                w as int,
                h as int,
                src,
                factors,
            )[p] == src[i],
{
    assert(w > 0 && h > 0) by (nonlinear_arith)
        requires
            0 <= p < w * h,
    ;
    lemma_scatter_len(w as int, h as int, src, factors, src.len() as int);
    lemma_scatter_at(w as int, h as int, src, factors, src.len() as int, p);
}

} // verus!
