//! Frames: a width, a height and one RGB triple per pixel, row by row.
use vstd::prelude::*;

verus! {

/// One pixel: red, green and blue intensities.
#[derive(Clone, Copy, Debug, PartialEq, Eq, Structural)]
pub struct Rgb {
    pub r: u8,
    pub g: u8,
    pub b: u8,
}

/// The pixel held by bytes `3i`, `3i + 1`, `3i + 2` of an RGB buffer.
pub open spec fn rgb_at(bytes: Seq<u8>, i: int) -> Rgb {
    Rgb { r: bytes[3 * i], g: bytes[3 * i + 1], b: bytes[3 * i + 2] }
}

/// The pixel held by bytes `3i`, `3i + 1`, `3i + 2` of a BGR buffer.
pub open spec fn bgr_at(bytes: Seq<u8>, i: int) -> Rgb {
    Rgb { r: bytes[3 * i + 2], g: bytes[3 * i + 1], b: bytes[3 * i] }
}

/// The grey pixel of intensity `v`.
pub open spec fn grey(v: u8) -> Rgb {
    Rgb { r: v, g: v, b: v }
}

/// The number of pixels of a `width` x `height` grid.
pub fn pixel_count(width: u32, height: u32) -> (r: u64)
    ensures
        r == width * height,
{
    proof {
        assert(width * height <= u32::MAX * u32::MAX) by (nonlinear_arith);
    }
    width as u64 * height as u64
}

/// A frame of `width` x `height` pixels, stored row by row.
#[derive(Clone, Debug)]
pub struct Frame {
    width: u32,
    height: u32,
    pixels: Vec<Rgb>,
}

impl Frame {
    pub closed spec fn w(&self) -> nat {
        self.width as nat
    }

    pub closed spec fn h(&self) -> nat {
        self.height as nat
    }

    pub closed spec fn px(&self) -> Seq<Rgb> {
        self.pixels@
    }

    /// Exactly one pixel per grid position.
    pub open spec fn wf(&self) -> bool {
        self.px().len() == self.w() * self.h()
    }

    /// The pixel at column `x`, row `y`.
    pub open spec fn at(&self, x: int, y: int) -> Rgb {
        self.px()[y * self.w() + x]
    }

    /// A frame from its pixels; `None` unless there is one per grid position.
    pub fn new(width: u32, height: u32, pixels: Vec<Rgb>) -> (r: Option<Frame>)
        ensures
            r is Some <==> pixels@.len() == width * height,
            r matches Some(f) ==> f.wf() && f.w() == width && f.h() == height
                && f.px() == pixels@,
    {
        if pixels.len() as u128 == pixel_count(width, height) as u128 {
            Some(Frame { width, height, pixels })
        } else {
            None
        }
    }

    /// A frame of one colour.
    pub fn filled(width: u32, height: u32, color: Rgb) -> (r: Frame)
        requires
            width * height <= usize::MAX,
        ensures
            r.wf(),
            r.w() == width,
            r.h() == height,
            forall|i: int| 0 <= i < r.px().len() ==> #[trigger] r.px()[i] == color,
    {
        let n: usize = pixel_count(width, height) as usize;
        let mut pixels: Vec<Rgb> = Vec::with_capacity(n);
        let mut i: usize = 0;
        while i < n
            invariant
                i <= n,
                pixels@.len() == i,
                forall|j: int| 0 <= j < i ==> #[trigger] pixels@[j] == color,
            decreases n - i,
        {
            pixels.push(color);
            i = i + 1;
        }
        Frame { width, height, pixels }
    }

    pub fn width(&self) -> (r: u32)
        ensures
            r == self.w(),
    {
        self.width
    }

    pub fn height(&self) -> (r: u32)
        ensures
            r == self.h(),
    {
        self.height
    }

    pub fn pixels(&self) -> (r: &Vec<Rgb>)
        ensures
            r@ == self.px(),
    {
        &self.pixels
    }

    /// The pixel at column `x`, row `y`; `None` outside the frame.
    pub fn pixel(&self, x: u32, y: u32) -> (r: Option<Rgb>)
        requires
            self.wf(),
        ensures
            r is Some <==> x < self.w() && y < self.h(),
            r matches Some(p) ==> p == self.at(x as int, y as int),
    {
        if x < self.width && y < self.height {
            proof {
                assert(y * self.width + x < self.width * self.height) by (nonlinear_arith)
                    requires
                        x < self.width,
                        y < self.height,
                ;
                assert(self.pixels@.len() == self.width * self.height);
                assert(y * self.width <= u32::MAX * u32::MAX) by (nonlinear_arith)
                    requires
                        y < self.height,
                ;
            }
            assert(self.pixels@.len() == self.pixels.len());
            let row: u64 = y as u64 * self.width as u64;
            let i: usize = (row + x as u64) as usize;
            Some(self.pixels[i])
        } else {
            None
        }
    }

    /// A frame from packed RGB bytes; `None` unless there are three per pixel.
    pub fn from_rgb_bytes(width: u32, height: u32, bytes: &Vec<u8>) -> (r: Option<Frame>)
        ensures
            r is Some <==> bytes@.len() == 3 * (width * height),
            r matches Some(f) ==> f.wf() && f.w() == width && f.h() == height && (forall|i: int|
                0 <= i < f.px().len() ==> #[trigger] f.px()[i] == rgb_at(bytes@, i)),
    {
        if bytes.len() as u128 != 3 * (pixel_count(width, height) as u128) {
            return None;
        }
        let n: usize = bytes.len() / 3;
        let mut pixels: Vec<Rgb> = Vec::with_capacity(n);
        let mut i: usize = 0;
        while i < n
            invariant
                bytes@.len() == 3 * n,
                bytes@.len() <= usize::MAX,
                i <= n,
                pixels@.len() == i,
                forall|j: int| 0 <= j < i ==> #[trigger] pixels@[j] == rgb_at(bytes@, j),
            decreases n - i,
        {
            pixels.push(Rgb { r: bytes[3 * i], g: bytes[3 * i + 1], b: bytes[3 * i + 2] });
            i = i + 1;
        }
        Some(Frame { width, height, pixels })
    }

    /// A frame from packed BGR bytes; `None` unless there are three per pixel.
    pub fn from_bgr_bytes(width: u32, height: u32, bytes: &Vec<u8>) -> (r: Option<Frame>)
        ensures
            r is Some <==> bytes@.len() == 3 * (width * height),
            r matches Some(f) ==> f.wf() && f.w() == width && f.h() == height && (forall|i: int|
                0 <= i < f.px().len() ==> #[trigger] f.px()[i] == bgr_at(bytes@, i)),
    {
        if bytes.len() as u128 != 3 * (pixel_count(width, height) as u128) {
            return None;
        }
        let n: usize = bytes.len() / 3;
        let mut pixels: Vec<Rgb> = Vec::with_capacity(n);
        let mut i: usize = 0;
        while i < n
            invariant
                bytes@.len() == 3 * n,
                bytes@.len() <= usize::MAX,
                i <= n,
                pixels@.len() == i,
                forall|j: int| 0 <= j < i ==> #[trigger] pixels@[j] == bgr_at(bytes@, j),
            decreases n - i,
        {
            pixels.push(Rgb { r: bytes[3 * i + 2], g: bytes[3 * i + 1], b: bytes[3 * i] });
            i = i + 1;
        }
        Some(Frame { width, height, pixels })
    }

    /// A grey frame from one intensity byte per pixel; `None` unless the
    /// count matches.
    pub fn from_grey_bytes(width: u32, height: u32, bytes: &Vec<u8>) -> (r: Option<Frame>)
        ensures
            r is Some <==> bytes@.len() == width * height,
            r matches Some(f) ==> f.wf() && f.w() == width && f.h() == height && (forall|i: int|
                0 <= i < f.px().len() ==> #[trigger] f.px()[i] == grey(bytes@[i])),
    {
        if bytes.len() as u128 != pixel_count(width, height) as u128 {
            return None;
        }
        let n: usize = bytes.len();
        let mut pixels: Vec<Rgb> = Vec::with_capacity(n);
        let mut i: usize = 0;
        while i < n
            invariant
                bytes@.len() == n,
                i <= n,
                pixels@.len() == i,
                forall|j: int| 0 <= j < i ==> #[trigger] pixels@[j] == grey(bytes@[j]),
            decreases n - i,
        {
            let v = bytes[i];
            pixels.push(Rgb { r: v, g: v, b: v });
            i = i + 1;
        }
        Some(Frame { width, height, pixels })
    }

    /// The pixels packed as BGR bytes, three per pixel.
    pub fn to_bgr_bytes(&self) -> (r: Vec<u8>)
        requires
            3 * self.px().len() <= usize::MAX,
        ensures
            r@.len() == 3 * self.px().len(),
            forall|i: int| 0 <= i < self.px().len() ==> #[trigger] bgr_at(r@, i) == self.px()[i],
    {
        let n: usize = self.pixels.len();
        let mut out: Vec<u8> = Vec::with_capacity(3 * n);
        let mut i: usize = 0;
        while i < n
            invariant
                n == self.px().len(),
                3 * n <= usize::MAX,
                i <= n,
                out@.len() == 3 * i,
                forall|j: int| 0 <= j < i ==> #[trigger] bgr_at(out@, j) == self.px()[j],
            decreases n - i,
        {
            let p = self.pixels[i];
            let ghost before = out@;
            out.push(p.b);
            out.push(p.g);
            out.push(p.r);
            proof {
                assert(forall|k: int| 0 <= k < 3 * i ==> out@[k] == before[k]);
                assert forall|j: int| 0 <= j < i + 1 implies #[trigger] bgr_at(out@, j)
                    == self.px()[j] by {
                    if j < i {
                        assert(bgr_at(out@, j) == bgr_at(before, j));
                    }
                }
            }
            i = i + 1;
        }
        out
    }
}

} // verus!
