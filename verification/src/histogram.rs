//! Histogram type and histogram computation.
//!
//! A [`Histogram`] counts, for a grayscale 8-bit image, how many pixels
//! fall into each of the 256 bins. Contrast adjustment by histogram
//! equalization is a floating-point consumer of this type and lives
//! outside the verified core.

use vstd::prelude::*;

use crate::image2d::ImageBuffer2D;
use crate::pixel_types::Luma;
use crate::traits::Pixel;

verus! {

/// How many of the first `k` pixels of `s` fall into bin `b`.
pub open spec fn bin_count<P: HistPixel>(s: Seq<P>, b: int, k: int) -> int
    decreases k,
{
    if k <= 0 {
        0
    } else {
        bin_count(s, b, k - 1) + if s[k - 1].bin_spec() == b {
            1int
        } else {
            0int
        }
    }
}

/// At most `k` of the first `k` pixels fall into any one bin.
pub proof fn lemma_bin_count_le<P: HistPixel>(s: Seq<P>, b: int, k: int)
    requires
        0 <= k,
    ensures
        0 <= bin_count(s, b, k) <= k,
    decreases k,
{
    if k > 0 {
        lemma_bin_count_le(s, b, k - 1);
    }
}

/// The sum of bins `0 ..= i` of `s`.
pub open spec fn cumulative_sum(s: Seq<u32>, i: int) -> int
    decreases i + 1,
{
    if i < 0 {
        0
    } else {
        cumulative_sum(s, i - 1) + s[i]
    }
}

/// Cumulative sums grow with the index.
pub proof fn lemma_cumulative_sum_mono(s: Seq<u32>, i: int, j: int)
    requires
        i <= j,
    ensures
        cumulative_sum(s, i) <= cumulative_sum(s, j),
    decreases j - i,
{
    if i < j {
        lemma_cumulative_sum_mono(s, i, j - 1);
    }
}

/// Trait implemented for pixel types for which histogram computation is
/// implemented: single-channel types whose value indexes one of 256 bins.
pub trait HistPixel: Pixel {
    /// Which bin the pixel falls into.
    spec fn bin_spec(self) -> int;

    /// Whether the pixel has a bin at all; signed pixels with negative
    /// values have none.
    spec fn bin_ok(self) -> bool;

    /// A bin index is one of the 256 bins.
    proof fn lemma_bin_range(self)
        requires
            self.bin_ok(),
        ensures
            0 <= self.bin_spec() < 256,
    ;

    /// Return the bin the pixel falls into; a pixel without a bin is a
    /// precondition violation.
    fn bin_index(&self) -> (r: u8)
        requires
            self.bin_ok(),
        ensures
            r as int == self.bin_spec(),
    ;
}

impl HistPixel for Luma<u8> {
    open spec fn bin_spec(self) -> int {
        self.data@[0] as int
    }

    open spec fn bin_ok(self) -> bool {
        true
    }

    proof fn lemma_bin_range(self) {
    }

    fn bin_index(&self) -> (r: u8) {
        self.data[0]
    }
}

impl HistPixel for Luma<i8> {
    open spec fn bin_spec(self) -> int {
        self.data@[0] as int
    }

    open spec fn bin_ok(self) -> bool {
        self.data@[0] >= 0
    }

    proof fn lemma_bin_range(self) {
    }

    fn bin_index(&self) -> (r: u8) {
        self.data[0] as u8
    }
}

/// Represent a histogram of a greyscale 8-bit image.
#[derive(Debug, Clone, PartialEq, Eq)]
pub struct Histogram {
    /// The 256 bins.
    pub v: [u32; 256],
}

impl Histogram {
    /// Construct a Histogram from an image: bin `b` counts the pixels
    /// whose value is `b`.
    ///
    /// Pixels without a bin (negative signed values) and images with more
    /// pixels than a bin can count are precondition violations.
    pub fn from_image<P: HistPixel>(img: &ImageBuffer2D<P>) -> (r: Histogram)
        requires
            img.wf(),
            img.pixels().len() <= u32::MAX,
            forall|k: int| 0 <= k < img.pixels().len() ==> (#[trigger] img.pixels()[k]).bin_ok(),
        ensures
            forall|b: int|
                0 <= b < 256 ==> #[trigger] r.v@[b] == bin_count(
                    img.pixels(),
                    b,
                    img.pixels().len() as int,
                ),
    {
        let mut v: [u32; 256] = [0; 256];
        let n = img.data.len();
        let mut k: usize = 0;
        while k < n
            invariant
                k <= n,
                n == img.pixels().len(),
                n <= u32::MAX,
                v@.len() == 256,
                forall|kk: int| 0 <= kk < n ==> (#[trigger] img.pixels()[kk]).bin_ok(),
                forall|b: int|
                    0 <= b < 256 ==> #[trigger] v@[b] == bin_count(img.pixels(), b, k as int),
            decreases n - k,
        {
            let p = &img.data[k];
            proof {
                p.lemma_bin_range();
                lemma_bin_count_le(img.pixels(), p.bin_spec(), k as int);
            }
            let idx = p.bin_index();
            v[idx as usize] = v[idx as usize] + 1;
            k = k + 1;
        }
        Histogram { v }
    }

    /// Return the number of pixels in the histogram with the given value,
    /// treating the histogram as representing a u8 image.
    pub fn count_u8(&self, val: u8) -> (r: u32)
        ensures
            r == self.v@[val as int],
    {
        self.v[val as usize]
    }

    /// Return the number of pixels in the histogram with the given value,
    /// treating the histogram as representing an i8 image.
    pub fn count_i8(&self, val: u8) -> (r: u32)
        ensures
            r == self.v@[val as int],
    {
        self.v[val as usize]
    }

    /// Return a reference to the array of histogram bins.
    pub fn bins(&self) -> (r: &[u32; 256])
        ensures
            r@ == self.v@,
    {
        &self.v
    }

    /// Compute the associated cumulative histogram: bin `i` of the result
    /// is the sum of bins `0 ..= i`.
    ///
    /// The total count must be representable; a histogram built by
    /// `from_image` satisfies this whenever the image has at most
    /// `u32::MAX` pixels.
    pub fn cumulative(&self) -> (r: Histogram)
        requires
            cumulative_sum(self.v@, 255) <= u32::MAX,
        ensures
            forall|i: int| 0 <= i < 256 ==> #[trigger] r.v@[i] == cumulative_sum(self.v@, i),
    {
        let mut v: [u32; 256] = [0; 256];
        v[0] = self.v[0];
        proof {
            assert(cumulative_sum(self.v@, 0) == cumulative_sum(self.v@, -1) + self.v@[0]);
        }
        let mut i: usize = 1;
        while i < 256
            invariant
                1 <= i <= 256,
                v@.len() == 256,
                cumulative_sum(self.v@, 255) <= u32::MAX,
                forall|k: int| 0 <= k < i ==> #[trigger] v@[k] == cumulative_sum(self.v@, k),
            decreases 256 - i,
        {
            proof {
                lemma_cumulative_sum_mono(self.v@, i as int, 255);
            }
            v[i] = v[i - 1] + self.v[i];
            i = i + 1;
        }
        Histogram { v }
    }
}

} // verus!
