//! A grey-scale image stored row by row in one vector of pixels.
use vstd::prelude::*;

verus! {

pub struct Image {
    width: usize,
    pixels: Vec<u8>,
}

impl Image {
    /// Number of pixels in a row.
    pub closed spec fn spec_width(&self) -> nat {
        self.width as nat
    }

    /// All pixels, row after row.
    pub closed spec fn spec_pixels(&self) -> Seq<u8> {
        self.pixels@
    }

    /// The pixels of row `i`.
    pub open spec fn spec_row(&self, i: int) -> Seq<u8> {
        self.spec_pixels().subrange(i * self.spec_width(), (i + 1) * self.spec_width())
    }

    /// The pixel count is a whole number of rows.
    pub open spec fn spec_height(&self) -> nat {
        if self.spec_width() == 0 {
            0
        } else {
            self.spec_pixels().len() / self.spec_width()
        }
    }

    pub closed spec fn wf(&self) -> bool {
        &&& self.pixels@.len() <= usize::MAX
        &&& self.width > 0 ==> (self.pixels@.len() as int) % (self.width as int) == 0
    }

    /// A black image of `height` rows of `width` pixels.
    pub fn new(height: usize, width: usize) -> (r: Image)
        requires
            height * width <= usize::MAX,
        ensures
            r.wf(),
            r.spec_width() == width,
            r.spec_pixels() == Seq::new((height * width) as nat, |k: int| 0u8),
            width > 0 ==> r.spec_height() == height,
    {
        let n = height * width;
        let mut pixels: Vec<u8> = Vec::new();
        let mut k: usize = 0;
        while k < n
            invariant
                k <= n,
                pixels@ == Seq::new(k as nat, |j: int| 0u8),
            decreases n - k,
        {
            pixels.push(0);
            k = k + 1;
            assert(pixels@ =~= Seq::new(k as nat, |j: int| 0u8));
        }
        assert(width > 0 ==> (height * width) % (width as int) == 0 && (height * width) / (
        width as int) == height) by (nonlinear_arith);
        Image { width, pixels }
    }

    /// A copy of row `index`.
    pub fn row(&self, index: usize) -> (r: Vec<u8>)
        requires
            self.wf(),
            index < self.spec_height(),
        ensures
            r@ == self.spec_row(index as int),
    {
        proof {
            lemma_row_in_bounds(index as int, self.width as int, self.pixels@.len() as int);
        }
        let start = index * self.width;
        let end = start + self.width;
        let mut out: Vec<u8> = Vec::new();
        let mut k: usize = start;
        while k < end
            invariant
                start <= k <= end <= self.pixels@.len(),
                out@ == self.pixels@.subrange(start as int, k as int),
            decreases end - k,
        {
            out.push(self.pixels[k]);
            k = k + 1;
            assert(out@ =~= self.pixels@.subrange(start as int, k as int));
        }
        out
    }

    /// Sets the pixel in row `index`, column `column`.
    pub fn set(&mut self, index: usize, column: usize, value: u8)
        requires
            old(self).wf(),
            index < old(self).spec_height(),
            column < old(self).spec_width(),
        ensures
            final(self).wf(),
            final(self).spec_width() == old(self).spec_width(),
            final(self).spec_pixels() == old(self).spec_pixels().update(
                index * old(self).spec_width() + column,
                value,
            ),
    {
        proof {
            lemma_row_in_bounds(index as int, self.width as int, self.pixels@.len() as int);
        }
        let k = index * self.width + column;
        self.pixels[k] = value;
    }
}

/// A row below the height of an image lies inside its pixels.
proof fn lemma_row_in_bounds(i: int, w: int, n: int)
    requires
        0 <= i,
        w > 0,
        n >= 0,
        n % w == 0,
        i < n / w,
    ensures
        (i + 1) * w <= n,
        i * w + w == (i + 1) * w,
{
    assert((i + 1) * w <= n) by (nonlinear_arith)
        requires
            0 <= i,
            w > 0,
            n >= 0,
            n % w == 0,
            i < n / w,
    ;
    assert(i * w + w == (i + 1) * w) by (nonlinear_arith);
}

} // verus!
