use vstd::prelude::*;

verus! {

/// The alpha mask ored onto every pixel stored through the checked and
/// unchecked setters: the top byte of a written pixel is always fully opaque.
pub const OPAQUE: u32 = 0xff00_0000;

/// An owned rectangular buffer of 32-bit ARGB pixels, stored row-major.
///
/// Invariant (`wf`): the buffer holds exactly `width * height` pixels.
/// Writes through `set` are clipped, never an error: coordinates outside the
/// surface are silently dropped. Every write through `set` or `set_unchecked`
/// forces the stored alpha byte to fully opaque; `clear` zeroes the whole
/// buffer, alpha included.
pub struct DrawHandle {
    pub width: u32,
    pub height: u32,
    pub pixels: Vec<u32>,
}

impl View for DrawHandle {
    type V = Seq<u32>;

    open spec fn view(&self) -> Seq<u32> {
        self.pixels@
    }
}

/// Row-major index arithmetic: a coordinate pair inside a `w`-by-`h`
/// rectangle maps to an offset inside the buffer.
pub proof fn lemma_row_major_index(x: int, y: int, w: int, h: int)
    by (nonlinear_arith)
    requires
        0 <= x < w,
        0 <= y < h,
    ensures
        0 <= y * w + x < w * h,
{
}

/// Row-major index arithmetic: distinct in-range coordinate pairs map to
/// distinct offsets.
pub proof fn lemma_row_major_injective(x1: int, y1: int, x2: int, y2: int, w: int)
    by (nonlinear_arith)
    requires
        0 <= x1 < w,
        0 <= x2 < w,
        0 <= y1,
        0 <= y2,
        y1 * w + x1 == y2 * w + x2,
    ensures
        x1 == x2 && y1 == y2,
{
}

impl DrawHandle {
    /// The buffer length matches the surface dimensions.
    pub open spec fn wf(&self) -> bool {
        self.pixels@.len() == self.width * self.height
    }

    /// The stored pixel at an in-range coordinate pair.
    pub open spec fn pixel(&self, x: int, y: int) -> u32 {
        self.pixels@[y * self.width + x]
    }

    /// A fresh surface: every pixel zero (transparent black).
    pub fn new(width: u32, height: u32) -> (d: DrawHandle)
        requires
            width * height <= usize::MAX,
        ensures
            d.wf(),
            d.width == width,
            d.height == height,
            forall|i: int| 0 <= i < d@.len() ==> d@[i] == 0u32,
    {
        let n: usize = (width as usize) * (height as usize);
        DrawHandle { width, height, pixels: vec![0u32; n] }
    }

    pub fn width(&self) -> (w: u32)
        ensures
            w == self.width,
    {
        self.width
    }

    pub fn height(&self) -> (h: u32)
        ensures
            h == self.height,
    {
        self.height
    }

    /// Checked pixel write: stores `color` with the alpha byte forced opaque
    /// iff `(x, y)` lies inside the surface; out-of-range writes are silently
    /// dropped, leaving the surface unchanged.
    pub fn set(&mut self, x: u32, y: u32, color: u32)
        requires
            old(self).wf(),
        ensures
            final(self).wf(),
            final(self).width == old(self).width,
            final(self).height == old(self).height,
            x < old(self).width && y < old(self).height ==> {
                &&& final(self)@ == old(self)@.update(
                    y * old(self).width + x,
                    color | OPAQUE,
                )
                &&& final(self).pixel(x as int, y as int) == color | OPAQUE
                &&& (final(self).pixel(x as int, y as int) >> 24) == 0xffu32
                &&& forall|i: int, j: int|
                    0 <= i < old(self).width && 0 <= j < old(self).height && !(i == x && j == y)
                        ==> final(self).pixel(i, j) == old(self).pixel(i, j)
            },
            !(x < old(self).width && y < old(self).height) ==> final(self)@ == old(self)@,
    {
        if x >= self.width || y >= self.height {
            return ;
        }
        let _buf_len: usize = self.pixels.len();
        proof {
            lemma_row_major_index(x as int, y as int, self.width as int, self.height as int);
        }
        let idx: usize = (y as usize) * (self.width as usize) + (x as usize);
        self.pixels[idx] = color | OPAQUE;
        proof {
            assert((color | OPAQUE) >> 24 == 0xffu32) by (bit_vector);
            assert forall|i: int, j: int|
                0 <= i < self.width && 0 <= j < self.height && !(i == x && j == y)
                    implies self.pixel(i, j) == old(self).pixel(i, j) by {
                lemma_row_major_index(i, j, self.width as int, self.height as int);
                if j * self.width + i == y * self.width + x {
                    lemma_row_major_injective(i, j, x as int, y as int, self.width as int);
                }
            }
        }
    }

    /// Unchecked-tier pixel write: the caller guarantees the coordinates are
    /// in range, and the bounds test is discharged statically instead of at
    /// run time. Stores `color` with the alpha byte forced opaque.
    pub fn set_unchecked(&mut self, x: u32, y: u32, color: u32)
        requires
            old(self).wf(),
            x < old(self).width,
            y < old(self).height,
        ensures
            final(self).wf(),
            final(self).width == old(self).width,
            final(self).height == old(self).height,
            final(self)@ == old(self)@.update(y * old(self).width + x, color | OPAQUE),
    {
        let _buf_len: usize = self.pixels.len();
        proof {
            lemma_row_major_index(x as int, y as int, self.width as int, self.height as int);
        }
        let idx: usize = (y as usize) * (self.width as usize) + (x as usize);
        self.pixels[idx] = color | OPAQUE;
    }

    /// Zeroes every pixel of the surface, the alpha byte included.
    pub fn clear(&mut self)
        requires
            old(self).wf(),
        ensures
            final(self).wf(),
            final(self).width == old(self).width,
            final(self).height == old(self).height,
            final(self)@.len() == old(self)@.len(),
            forall|i: int| 0 <= i < final(self)@.len() ==> final(self)@[i] == 0u32,
    {
        self.fill(0);
    }

    /// Bulk fill: stores `color` into every pixel exactly as given, with no
    /// forced-opaque adjustment. This is the verified stand-in for writing
    /// through the raw pixel run; a caller that wants parity with `set` must
    /// pass a color whose alpha byte is already opaque.
    pub fn fill(&mut self, color: u32)
        requires
            old(self).wf(),
        ensures
            final(self).wf(),
            final(self).width == old(self).width,
            final(self).height == old(self).height,
            final(self)@.len() == old(self)@.len(),
            forall|i: int| 0 <= i < final(self)@.len() ==> final(self)@[i] == color,
    {
        let n: usize = self.pixels.len();
        let mut i: usize = 0;
        while i < n
            invariant
                i <= n,
                n == self.pixels@.len(),
                self.width == old(self).width,
                self.height == old(self).height,
                self.pixels@.len() == old(self).pixels@.len(),
                old(self).wf(),
                forall|j: int| 0 <= j < i ==> self.pixels@[j] == color,
            decreases n - i,
        {
            self.pixels[i] = color;
            i = i + 1;
        }
    }

    /// A read-only view of the pixel run, row-major.
    pub fn as_slice(&self) -> (s: &[u32])
        ensures
            s@ == self@,
    {
        self.pixels.as_slice()
    }
}

} // verus!
