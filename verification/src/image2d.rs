//! The owned 2-D image buffer.
//!
//! An [`ImageBuffer2D`] is logically a row-major `width x height` grid of
//! pixels backed by one contiguous allocation; the pixel at `(x, y)` lives
//! at index `y * width + x` of the backing vector. The specification view
//! of an image is the pixel sequence [`ImageBuffer2D::pixels`] together
//! with its dimensions; [`ImageBuffer2D::pix`] reads one grid cell of that
//! view.

use vstd::prelude::*;

use crate::error::ImageError;
use crate::rect::Rect;
use crate::pixel_types::{Luma, LumaA, Rgb, RgbA};
use crate::traits::{Pixel, Primitive, Region};

verus! {

/// A pixel index stays inside the backing vector of a row-major grid.
pub proof fn lemma_row_major(w: int, h: int, x: int, y: int)
    requires
        0 <= x < w,
        0 <= y < h,
    ensures
        0 <= y * w + x < w * h,
{
    assert(0 <= y * w + x && y * w + x < w * h) by (nonlinear_arith)
        requires
            0 <= x < w && 0 <= y < h,
    ;
}

/// Owned 2-D image: a row-major grid of pixels in one contiguous vector.
///
/// The fields are public so that the specification functions below stay
/// transparent; well-behaved callers go through the constructors, which
/// establish the invariant [`ImageBuffer2D::wf`], and the methods, which
/// preserve it.
#[derive(Debug, Clone, PartialEq, Eq)]
pub struct ImageBuffer2D<P> {
    /// Width of the grid, in pixels.
    pub width: u32,
    /// Height of the grid, in pixels.
    pub height: u32,
    /// The backing storage, row-major with no gaps.
    pub data: Vec<P>,
}

impl<P: Pixel> ImageBuffer2D<P> {
    /// The image invariant: the backing vector holds exactly one pixel per
    /// grid cell.
    pub open spec fn wf(self) -> bool {
        self.data@.len() == self.width * self.height
    }

    /// Width as a mathematical integer.
    pub open spec fn width_spec(self) -> int {
        self.width as int
    }

    /// Height as a mathematical integer.
    pub open spec fn height_spec(self) -> int {
        self.height as int
    }

    /// The pixels in row-major order: the mathematical content of the
    /// image.
    pub open spec fn pixels(self) -> Seq<P> {
        self.data@
    }

    /// The pixel of grid cell `(x, y)`.
    pub open spec fn pix(self, x: int, y: int) -> P {
        self.data@[y * self.width + x]
    }

    /// Whether `(x, y)` lies inside the grid.
    pub open spec fn in_bounds(self, x: int, y: int) -> bool {
        0 <= x < self.width && 0 <= y < self.height
    }

    /// Two images agree everywhere: same dimensions, same pixels.
    pub open spec fn same_image(self, other: Self) -> bool {
        &&& self.width == other.width
        &&& self.height == other.height
        &&& self.pixels() == other.pixels()
    }

    /// Create a new owned image of specified dimensions filled with zeros.
    pub fn new(width: u32, height: u32) -> (r: ImageBuffer2D<P>)
        requires
            width * height <= usize::MAX,
        ensures
            r.wf(),
            r.width_spec() == width,
            r.height_spec() == height,
            r.pixels() == Seq::new((width * height) as nat, |i: int| P::zero_spec()),
    {
        let n: u64 = width as u64 * height as u64;
        let n: usize = n as usize;
        let mut data: Vec<P> = Vec::new();
        let mut i: usize = 0;
        while i < n
            invariant
                i <= n,
                data@.len() == i,
                forall|k: int| 0 <= k < i ==> data@[k] == P::zero_spec(),
            decreases n - i,
        {
            data.push(P::zero());
            i = i + 1;
        }
        let r = ImageBuffer2D { width, height, data };
        proof {
            assert(r.pixels() =~= Seq::new((width * height) as nat, |i: int| P::zero_spec()));
        }
        r
    }

    /// Create a new image of specified dimensions from a `Vec` of the
    /// specified pixel type.
    ///
    /// Fails with `InvalidDimensions` exactly when the vector length does
    /// not equal `w * h`.
    pub fn from_vec(w: u32, h: u32, v: Vec<P>) -> (r: Result<ImageBuffer2D<P>, ImageError>)
        ensures
            r is Ok <==> v@.len() == w * h,
            r is Err <==> r == Result::<ImageBuffer2D<P>, ImageError>::Err(
                ImageError::InvalidDimensions,
            ) && v@.len() != w * h,
            r is Ok ==> {
                let img = r->Ok_0;
                &&& img.wf()
                &&& img.width_spec() == w
                &&& img.height_spec() == h
                &&& img.pixels() == v@
            },
    {
        proof {
            assert(w as int * h as int <= u64::MAX) by (nonlinear_arith)
                requires
                    0 <= w as int <= u32::MAX as int && 0 <= h as int <= u32::MAX as int,
            ;
        }
        if v.len() as u64 == w as u64 * h as u64 {
            Ok(ImageBuffer2D { width: w, height: h, data: v })
        } else {
            Err(ImageError::InvalidDimensions)
        }
    }

    /// Create a new image of specified dimensions from a flat,
    /// channel-grouped slice of subpixel values.
    ///
    /// Fails with `InvalidDimensions` exactly when the slice length does
    /// not equal `w * h` times the channel count of `P`.
    pub fn from_raw_vec(w: u32, h: u32, v: &[P::Subpixel]) -> (r: Result<
        ImageBuffer2D<P>,
        ImageError,
    >)
        ensures
            r is Ok <==> v@.len() == w * h * P::n_spec(),
            r is Err <==> r == Result::<ImageBuffer2D<P>, ImageError>::Err(
                ImageError::InvalidDimensions,
            ) && v@.len() != w * h * P::n_spec(),
            r is Ok ==> {
                let img = r->Ok_0;
                &&& img.wf()
                &&& img.width_spec() == w
                &&& img.height_spec() == h
                &&& forall|k: int|
                    0 <= k < w * h ==> (#[trigger] img.pixels()[k]).chan() == v@.subrange(
                        k * P::n_spec(),
                        (k + 1) * P::n_spec(),
                    )
            },
    {
        let nc = P::n_channels();
        proof {
            P::lemma_arity();
        }
        let vlen = v.len();
        proof {
            assert(w as int * h as int <= u128::MAX && w as int * h as int * nc as int
                <= u128::MAX) by (nonlinear_arith)
                requires
                    0 <= w as int <= u32::MAX as int && 0 <= h as int <= u32::MAX as int && 0 <= nc
                        as int <= 4,
            ;
        }
        let want: u128 = w as u128 * h as u128 * nc as u128;
        if vlen as u128 != want {
            proof {
                assert(v@.len() != w * h * P::n_spec());
            }
            return Err(ImageError::InvalidDimensions);
        }
        proof {
            assert(v@.len() == w * h * P::n_spec());
            assert(w * h <= w * h * P::n_spec()) by (nonlinear_arith)
                requires
                    1 <= P::n_spec() && 0 <= w as int * h as int,
            ;
            assert(0 <= w as int * h as int) by (nonlinear_arith)
                requires
                    0 <= w as int && 0 <= h as int,
            ;
        }
        let n: u64 = w as u64 * h as u64;
        let n: usize = n as usize;
        let mut data: Vec<P> = Vec::new();
        let mut i: usize = 0;
        while i < n
            invariant
                i <= n,
                n == w * h,
                nc == P::n_spec(),
                v@.len() == n * P::n_spec(),
                v@.len() <= usize::MAX,
                data@.len() == i,
                forall|k: int|
                    0 <= k < i ==> (#[trigger] data@[k]).chan() == v@.subrange(
                        k * P::n_spec(),
                        (k + 1) * P::n_spec(),
                    ),
            decreases n - i,
        {
            proof {
                P::lemma_arity();
                lemma_chunk_bounds(n as int, P::n_spec() as int, i as int);
                assert(i * P::n_spec() + P::n_spec() <= v@.len());
            }
            let start: usize = i * nc as usize;
            let chunk: &[P::Subpixel] = vstd::slice::slice_subrange(v, start, start + nc as usize);
            let p = P::from_slice(chunk);
            proof {
                assert(p.chan() =~= v@.subrange(
                    i * P::n_spec(),
                    (i + 1) * P::n_spec(),
                ));
            }
            data.push(p);
            i = i + 1;
        }
        Ok(ImageBuffer2D { width: w, height: h, data })
    }

    /// Consume self and return the raw underlying storage `Vec`.
    pub fn into_raw_vec(self) -> (r: Vec<P>)
        ensures
            r@ == self.pixels(),
    {
        self.data
    }

    /// Return the contiguous backing slice.
    ///
    /// An owned buffer is always laid out in natural row-major order with
    /// no gaps, so this always returns `Some`.
    pub fn as_slice(&self) -> (r: Option<&[P]>)
        ensures
            r is Some,
            r->Some_0@ == self.pixels(),
    {
        Some(self.data.as_slice())
    }

    /// Return the width of the image.
    pub fn width(&self) -> (r: u32)
        ensures
            r == self.width_spec(),
    {
        self.width
    }

    /// Return the height of the image.
    pub fn height(&self) -> (r: u32)
        ensures
            r == self.height_spec(),
    {
        self.height
    }

    /// Return the dimensions of the image as a `(width, height)` tuple.
    pub fn dimensions(&self) -> (r: (u32, u32))
        ensures
            r.0 == self.width_spec(),
            r.1 == self.height_spec(),
    {
        (self.width, self.height)
    }

    /// Return the pixel at the specified coordinates; an out-of-bounds
    /// index is a precondition violation, not a recoverable error.
    pub fn get_pixel(&self, x: u32, y: u32) -> (r: P)
        requires
            self.wf(),
            self.in_bounds(x as int, y as int),
        ensures
            r == self.pix(x as int, y as int),
    {
        let n = self.data.len();
        proof {
            lemma_row_major(self.width as int, self.height as int, x as int, y as int);
        }
        let idx: usize = y as usize * self.width as usize + x as usize;
        self.data[idx]
    }

    /// Set the pixel at the specified coordinates to the specified value;
    /// an out-of-bounds index is a precondition violation.
    pub fn put_pixel(&mut self, x: u32, y: u32, pixel: P)
        requires
            old(self).wf(),
            old(self).in_bounds(x as int, y as int),
        ensures
            final(self).wf(),
            final(self).width == old(self).width,
            final(self).height == old(self).height,
            final(self).pixels() == old(self).pixels().update(
                y * old(self).width + x,
                pixel,
            ),
    {
        let n = self.data.len();
        let n = self.data.len();
        proof {
            lemma_row_major(self.width as int, self.height as int, x as int, y as int);
        }
        let idx: usize = y as usize * self.width as usize + x as usize;
        self.data[idx] = pixel;
    }

    /// Fill the image with the given value.
    pub fn fill(&mut self, value: P)
        requires
            old(self).wf(),
        ensures
            final(self).wf(),
            final(self).width == old(self).width,
            final(self).height == old(self).height,
            final(self).pixels() == Seq::new(old(self).pixels().len(), |i: int| value),
    {
        let n = self.data.len();
        let mut i: usize = 0;
        while i < n
            invariant
                i <= n,
                self.width == old(self).width,
                self.height == old(self).height,
                self.data@.len() == n,
                n == old(self).data@.len(),
                forall|k: int| 0 <= k < i ==> self.data@[k] == value,
            decreases n - i,
        {
            self.data[i] = value;
            i = i + 1;
        }
        proof {
            assert(self.pixels() =~= Seq::new(old(self).pixels().len(), |i: int| value));
        }
    }

    /// Return an owned copy of the image.
    pub fn to_owned(&self) -> (r: ImageBuffer2D<P>)
        ensures
            r.same_image(*self),
    {
        let mut data: Vec<P> = Vec::new();
        let n = self.data.len();
        let mut i: usize = 0;
        while i < n
            invariant
                i <= n,
                n == self.data@.len(),
                data@.len() == i,
                forall|k: int| 0 <= k < i ==> data@[k] == self.data@[k],
            decreases n - i,
        {
            data.push(self.data[i]);
            i = i + 1;
        }
        let r = ImageBuffer2D { width: self.width, height: self.height, data };
        proof {
            assert(r.pixels() =~= self.pixels());
        }
        r
    }
}

/// Whether the double loop walking a `w x h` grid in row-major order has
/// already visited cell `(di, dj)` when it stands at column `i` of row `j`.
pub open spec fn cell_done(di: int, dj: int, i: int, j: int) -> bool {
    dj < j || (dj == j && di < i)
}

/// Distinct grid cells have distinct row-major indices.
pub proof fn lemma_row_major_distinct(w: int, x1: int, y1: int, x2: int, y2: int)
    requires
        0 <= x1 < w,
        0 <= x2 < w,
        0 <= y1,
        0 <= y2,
        x1 != x2 || y1 != y2,
    ensures
        y1 * w + x1 != y2 * w + x2,
{
    assert(y1 * w + x1 != y2 * w + x2) by (nonlinear_arith)
        requires
            0 <= x1 < w && 0 <= x2 < w && 0 <= y1 && 0 <= y2 && (x1 != x2 || y1 != y2),
    ;
}

/// A cell visited before position `(i, j)` of the row-major walk has a
/// row-major index below the walk's progress counter `j * w + i`.
pub proof fn lemma_grid_prefix(w: int, i: int, j: int, di: int, dj: int)
    requires
        0 <= di < w,
        0 <= dj,
        0 <= i,
        cell_done(di, dj, i, j),
    ensures
        0 <= dj * w + di < j * w + i,
{
    assert(0 <= dj * w + di < j * w + i) by (nonlinear_arith)
        requires
            0 <= di < w && 0 <= dj && 0 <= i && (dj < j || (dj == j && di < i)),
    ;
}

impl<P: Pixel> ImageBuffer2D<P> {
    /// Generate a new image from a function that will be called with the
    /// index of each pixel.
    ///
    /// The result holds, at every coordinate `(x, y)`, a value that the
    /// function may return for `(x, y)`.
    pub fn generate<F: Fn((u32, u32)) -> P>(w: u32, h: u32, f: F) -> (r: ImageBuffer2D<P>)
        requires
            w * h <= usize::MAX,
            forall|x: u32, y: u32| x < w && y < h ==> call_requires(f, ((x, y),)),
        ensures
            r.wf(),
            r.width_spec() == w,
            r.height_spec() == h,
            forall|x: u32, y: u32|
                x < w && y < h ==> call_ensures(f, ((x, y),), #[trigger] r.pix(x as int, y as int)),
    {
        let mut data: Vec<P> = Vec::new();
        let mut y: u32 = 0;
        while y < h
            invariant
                y <= h,
                w * h <= usize::MAX,
                data@.len() == y * w,
                forall|xx: u32, yy: u32| xx < w && yy < h ==> call_requires(f, ((xx, yy),)),
                forall|xx: u32, yy: u32|
                    xx < w && yy < y ==> call_ensures(
                        f,
                        ((xx, yy),),
                        #[trigger] data@[yy * w + xx],
                    ),
            decreases h - y,
        {
            let mut x: u32 = 0;
            while x < w
                invariant
                    x <= w,
                    y < h,
                    w * h <= usize::MAX,
                    data@.len() == y * w + x,
                    forall|xx: u32, yy: u32| xx < w && yy < h ==> call_requires(f, ((xx, yy),)),
                    forall|xx: u32, yy: u32|
                        xx < w && (yy < y || (yy == y && xx < x)) ==> call_ensures(
                            f,
                            ((xx, yy),),
                            #[trigger] data@[yy * w + xx],
                        ),
                decreases w - x,
            {
                proof {
                    lemma_row_major(w as int, h as int, x as int, y as int);
                }
                let p = f((x, y));
                data.push(p);
                proof {
                    assert forall|xx: u32, yy: u32|
                        xx < w && (yy < y || (yy == y && xx < x + 1)) implies call_ensures(
                        f,
                        ((xx, yy),),
                        #[trigger] data@[yy * w + xx],
                    ) by {
                        if yy < y || (yy == y && xx < x) {
                            lemma_grid_prefix(
                                w as int,
                                x as int,
                                y as int,
                                xx as int,
                                yy as int,
                            );
                        }
                    }
                }
                x = x + 1;
            }
            proof {
                assert((y + 1) * w == y * w + w) by (nonlinear_arith);
            }
            y = y + 1;
        }
        proof {
            assert(data@.len() == h * w);
            assert(h * w == w * h) by (nonlinear_arith);
        }
        let r = ImageBuffer2D { width: w, height: h, data };
        proof {
            assert forall|x: u32, y: u32| x < w && y < h implies call_ensures(
                f,
                ((x, y),),
                #[trigger] r.pix(x as int, y as int),
            ) by {
                lemma_row_major(w as int, h as int, x as int, y as int);
            }
        }
        r
    }

    /// Return a `Rect` covering the whole image; an empty image has no
    /// rectangle, so positive dimensions are required.
    pub fn rect(&self) -> (r: Rect)
        requires
            1 <= self.width,
            1 <= self.height,
        ensures
            r.wf(),
            r.left_spec() == 0,
            r.top_spec() == 0,
            r.width_spec() == self.width_spec(),
            r.height_spec() == self.height_spec(),
    {
        Rect::new(0, 0, self.width, self.height)
    }

    /// Return the pixels of row `y` in left-to-right order, or `None` when
    /// the index is out of range.
    pub fn row(&self, y: u32) -> (r: Option<Vec<P>>)
        requires
            self.wf(),
        ensures
            r is Some <==> y < self.height,
            r is Some ==> r->Some_0@ == Seq::new(
                self.width as nat,
                |x: int| self.pix(x, y as int),
            ),
    {
        if y >= self.height {
            return None;
        }
        let mut out: Vec<P> = Vec::new();
        let mut x: u32 = 0;
        while x < self.width
            invariant
                x <= self.width,
                y < self.height,
                self.wf(),
                out@.len() == x,
                forall|k: int| 0 <= k < x ==> out@[k] == self.pix(k, y as int),
            decreases self.width - x,
        {
            out.push(self.get_pixel(x, y));
            x = x + 1;
        }
        proof {
            assert(out@ =~= Seq::new(self.width as nat, |x: int| self.pix(x, y as int)));
        }
        Some(out)
    }

    /// Return the pixels of column `x` in top-to-bottom order, or `None`
    /// when the index is out of range.
    pub fn col(&self, x: u32) -> (r: Option<Vec<P>>)
        requires
            self.wf(),
        ensures
            r is Some <==> x < self.width,
            r is Some ==> r->Some_0@ == Seq::new(
                self.height as nat,
                |y: int| self.pix(x as int, y),
            ),
    {
        if x >= self.width {
            return None;
        }
        let mut out: Vec<P> = Vec::new();
        let mut y: u32 = 0;
        while y < self.height
            invariant
                y <= self.height,
                x < self.width,
                self.wf(),
                out@.len() == y,
                forall|k: int| 0 <= k < y ==> out@[k] == self.pix(x as int, k),
            decreases self.height - y,
        {
            out.push(self.get_pixel(x, y));
            y = y + 1;
        }
        proof {
            assert(out@ =~= Seq::new(self.height as nat, |y: int| self.pix(x as int, y)));
        }
        Some(out)
    }

    /// Return all rows in scanline order.
    pub fn rows(&self) -> (r: Vec<Vec<P>>)
        requires
            self.wf(),
        ensures
            r@.len() == self.height,
            forall|y: int|
                0 <= y < self.height ==> (#[trigger] r@[y])@ == Seq::new(
                    self.width as nat,
                    |x: int| self.pix(x, y),
                ),
    {
        let mut out: Vec<Vec<P>> = Vec::new();
        let mut y: u32 = 0;
        while y < self.height
            invariant
                y <= self.height,
                self.wf(),
                out@.len() == y,
                forall|k: int|
                    0 <= k < y ==> (#[trigger] out@[k])@ == Seq::new(
                        self.width as nat,
                        |x: int| self.pix(x, k),
                    ),
            decreases self.height - y,
        {
            let row = match self.row(y) {
                Some(row) => row,
                None => vstd::pervasive::unreached(),
            };
            out.push(row);
            y = y + 1;
        }
        out
    }

    /// Return all columns in left-to-right order.
    pub fn cols(&self) -> (r: Vec<Vec<P>>)
        requires
            self.wf(),
        ensures
            r@.len() == self.width,
            forall|x: int|
                0 <= x < self.width ==> (#[trigger] r@[x])@ == Seq::new(
                    self.height as nat,
                    |y: int| self.pix(x, y),
                ),
    {
        let mut out: Vec<Vec<P>> = Vec::new();
        let mut x: u32 = 0;
        while x < self.width
            invariant
                x <= self.width,
                self.wf(),
                out@.len() == x,
                forall|k: int|
                    0 <= k < x ==> (#[trigger] out@[k])@ == Seq::new(
                        self.height as nat,
                        |y: int| self.pix(k, y),
                    ),
            decreases self.width - x,
        {
            let col = match self.col(x) {
                Some(col) => col,
                None => vstd::pervasive::unreached(),
            };
            out.push(col);
            x = x + 1;
        }
        out
    }

    /// Return the pixels and their `(y, x)` indices in row-major order.
    pub fn enumerate_pixels(&self) -> (r: Vec<((u32, u32), P)>)
        requires
            self.wf(),
        ensures
            r@.len() == self.width * self.height,
            forall|x: u32, y: u32|
                x < self.width && y < self.height ==> #[trigger] r@[y * self.width + x] == (
                    (y, x),
                    self.pix(x as int, y as int),
                ),
    {
        let w = self.width;
        let h = self.height;
        let mut out: Vec<((u32, u32), P)> = Vec::new();
        let mut y: u32 = 0;
        while y < h
            invariant
                y <= h,
                w == self.width,
                h == self.height,
                self.wf(),
                out@.len() == y * w,
                forall|xx: u32, yy: u32|
                    xx < w && yy < y ==> #[trigger] out@[yy * w + xx] == (
                        (yy, xx),
                        self.pix(xx as int, yy as int),
                    ),
            decreases h - y,
        {
            let mut x: u32 = 0;
            while x < w
                invariant
                    x <= w,
                    y < h,
                    w == self.width,
                    h == self.height,
                    self.wf(),
                    out@.len() == y * w + x,
                    forall|xx: u32, yy: u32|
                        xx < w && (yy < y || (yy == y && xx < x)) ==> #[trigger] out@[yy * w + xx]
                            == ((yy, xx), self.pix(xx as int, yy as int)),
                decreases w - x,
            {
                proof {
                    lemma_row_major(w as int, h as int, x as int, y as int);
                }
                let p = self.get_pixel(x, y);
                out.push(((y, x), p));
                proof {
                    assert forall|xx: u32, yy: u32|
                        xx < w && (yy < y || (yy == y && xx < x + 1)) implies #[trigger] out@[yy * w
                        + xx] == ((yy, xx), self.pix(xx as int, yy as int)) by {
                        if yy < y || (yy == y && xx < x) {
                            lemma_grid_prefix(
                                w as int,
                                x as int,
                                y as int,
                                xx as int,
                                yy as int,
                            );
                        }
                    }
                }
                x = x + 1;
            }
            proof {
                assert((y + 1) * w == y * w + w) by (nonlinear_arith);
            }
            y = y + 1;
        }
        proof {
            assert(y * w == w * h) by (nonlinear_arith)
                requires
                    y == h,
            ;
        }
        out
    }

    /// Return the pixels of a caller-supplied rectangle in row-major
    /// order.
    ///
    /// The rectangle is deliberately not re-validated against the image
    /// bounds: a rectangle that does not fit is a precondition violation.
    /// Callers validate via `fits_image` or `crop_to_image` first.
    pub fn rect_iter(&self, rect: Rect) -> (r: Vec<P>)
        requires
            self.wf(),
            rect.wf(),
            rect.right_spec() < self.width,
            rect.bottom_spec() < self.height,
        ensures
            r@.len() == rect.width_spec() * rect.height_spec(),
            forall|i: u32, j: u32|
                i < rect.width && j < rect.height ==> #[trigger] r@[j * rect.width + i]
                    == self.pix(rect.left_spec() + i, rect.top_spec() + j),
    {
        let rw = rect.width();
        let rh = rect.height();
        let l = rect.left();
        let t = rect.top();
        let mut out: Vec<P> = Vec::new();
        let mut j: u32 = 0;
        while j < rh
            invariant
                j <= rh,
                rw == rect.width,
                rh == rect.height,
                l == rect.left,
                t == rect.top,
                self.wf(),
                rect.wf(),
                rect.right_spec() < self.width,
                rect.bottom_spec() < self.height,
                out@.len() == j * rw,
                forall|ii: u32, jj: u32|
                    ii < rw && jj < j ==> #[trigger] out@[jj * rw + ii] == self.pix(
                        rect.left_spec() + ii,
                        rect.top_spec() + jj,
                    ),
            decreases rh - j,
        {
            let mut i: u32 = 0;
            while i < rw
                invariant
                    i <= rw,
                    j < rh,
                    rw == rect.width,
                    rh == rect.height,
                    l == rect.left,
                    t == rect.top,
                    self.wf(),
                    rect.wf(),
                    rect.right_spec() < self.width,
                    rect.bottom_spec() < self.height,
                    out@.len() == j * rw + i,
                    forall|ii: u32, jj: u32|
                        ii < rw && (jj < j || (jj == j && ii < i)) ==> #[trigger] out@[jj * rw + ii]
                            == self.pix(rect.left_spec() + ii, rect.top_spec() + jj),
                decreases rw - i,
            {
                proof {
                    lemma_row_major(rw as int, rh as int, i as int, j as int);
                }
                let p = self.get_pixel(l + i, t + j);
                out.push(p);
                proof {
                    assert forall|ii: u32, jj: u32|
                        ii < rw && (jj < j || (jj == j && ii < i + 1)) implies #[trigger] out@[jj
                        * rw + ii] == self.pix(rect.left_spec() + ii, rect.top_spec() + jj) by {
                        if jj < j || (jj == j && ii < i) {
                            lemma_grid_prefix(
                                rw as int,
                                i as int,
                                j as int,
                                ii as int,
                                jj as int,
                            );
                        }
                    }
                }
                i = i + 1;
            }
            proof {
                assert((j + 1) * rw == j * rw + rw) by (nonlinear_arith);
            }
            j = j + 1;
        }
        proof {
            assert(j * rw == rw * rh) by (nonlinear_arith)
                requires
                    j == rh,
            ;
        }
        out
    }

    /// Return an owned copy of a rectangular region of the image.
    ///
    /// Fails with `RectOutOfBounds` exactly when the rectangle does not
    /// fit the image. On success, pixel `(i, j)` of the result equals
    /// pixel `(rect.left + i, rect.top + j)` of the source.
    pub fn sub_image(&self, rect: Rect) -> (r: Result<ImageBuffer2D<P>, ImageError>)
        requires
            self.wf(),
            rect.wf(),
        ensures
            r is Ok <==> rect.right_spec() < self.width && rect.bottom_spec() < self.height,
            r is Err ==> r == Result::<ImageBuffer2D<P>, ImageError>::Err(
                ImageError::RectOutOfBounds,
            ),
            r is Ok ==> {
                let out = r->Ok_0;
                &&& out.wf()
                &&& out.width_spec() == rect.width_spec()
                &&& out.height_spec() == rect.height_spec()
                &&& forall|i: int, j: int|
                    0 <= i < rect.width_spec() && 0 <= j < rect.height_spec()
                        ==> #[trigger] out.pix(i, j) == self.pix(
                        rect.left_spec() + i,
                        rect.top_spec() + j,
                    )
            },
    {
        if !(rect.right() < self.width && rect.bottom() < self.height) {
            return Err(ImageError::RectOutOfBounds);
        }
        let data = self.rect_iter(rect);
        let out = ImageBuffer2D { width: rect.width(), height: rect.height(), data };
        proof {
            assert(out.wf()) by {
                assert(rect.width * rect.height == rect.width_spec() * rect.height_spec());
            }
            assert forall|i: int, j: int|
                0 <= i < rect.width_spec() && 0 <= j < rect.height_spec() implies #[trigger] out.pix(
                i,
                j,
            ) == self.pix(rect.left_spec() + i, rect.top_spec() + j) by {
                let iu = i as u32;
                let ju = j as u32;
                assert(out.pix(i, j) == out.data@[j * rect.width + i]);
                assert(out.data@[ju * rect.width + iu] == self.pix(
                    rect.left_spec() + iu,
                    rect.top_spec() + ju,
                ));
            }
        }
        Ok(out)
    }

    /// Translate the given `Rect` within the image by the given 2-D
    /// vector, cropping the parts that fall outside the image.
    ///
    /// Returns the translated and cropped rectangle, or `None` when
    /// nothing of it lies inside the image.
    pub fn translate_rect(&self, rect: Rect, x: i64, y: i64) -> (res: Option<Rect>)
        requires
            rect.wf(),
            1 <= self.width,
            1 <= self.height,
            rect.right_spec() + x < i64::MAX,
            rect.bottom_spec() + y < i64::MAX,
        ensures
            res is Some <==> rect.left_spec() + x < self.width_spec() && rect.top_spec() + y
                < self.height_spec() && rect.right_spec() + x >= 0 && rect.bottom_spec() + y >= 0,
            res is Some ==> {
                let r = res->Some_0;
                &&& r.wf()
                &&& r.left_spec() == vstd::math::max(0, rect.left_spec() + x)
                &&& r.top_spec() == vstd::math::max(0, rect.top_spec() + y)
                &&& r.right_spec() == vstd::math::min(
                    self.width_spec() - 1,
                    rect.right_spec() + x,
                )
                &&& r.bottom_spec() == vstd::math::min(
                    self.height_spec() - 1,
                    rect.bottom_spec() + y,
                )
            },
    {
        let left: i64 = rect.left() as i64 + x;
        let top: i64 = rect.top() as i64 + y;
        let right: i64 = rect.right() as i64 + x;
        let bottom: i64 = rect.bottom() as i64 + y;
        let w_signed: i64 = self.width as i64;
        let h_signed: i64 = self.height as i64;
        if left < w_signed && top < h_signed && right >= 0 && bottom >= 0 {
            let x_left: u32 = if left < 0 {
                0
            } else {
                left as u32
            };
            let y_top: u32 = if top < 0 {
                0
            } else {
                top as u32
            };
            let x_right: u32 = if right + 1 < w_signed {
                right as u32
            } else {
                self.width - 1
            };
            let y_bottom: u32 = if bottom + 1 < h_signed {
                bottom as u32
            } else {
                self.height - 1
            };
            Some(Rect::new(x_left, y_top, x_right - x_left + 1, y_bottom - y_top + 1))
        } else {
            None
        }
    }

    /// Fill the given `Rect` with the given value; a rectangle that does
    /// not fit the image is a precondition violation.
    pub fn fill_rect(&mut self, rect: Rect, value: &P)
        requires
            old(self).wf(),
            rect.wf(),
            rect.right_spec() < old(self).width,
            rect.bottom_spec() < old(self).height,
        ensures
            final(self).wf(),
            final(self).width == old(self).width,
            final(self).height == old(self).height,
            forall|x: int, y: int|
                old(self).in_bounds(x, y) ==> #[trigger] final(self).pix(x, y) == (
                if rect.contains_spec(x, y) {
                    *value
                } else {
                    old(self).pix(x, y)
                }),
    {
        let rw = rect.width();
        let rh = rect.height();
        let l = rect.left();
        let t = rect.top();
        let mut j: u32 = 0;
        while j < rh
            invariant
                j <= rh,
                rw == rect.width,
                rh == rect.height,
                l == rect.left,
                t == rect.top,
                rect.wf(),
                rect.right_spec() < old(self).width,
                rect.bottom_spec() < old(self).height,
                self.wf(),
                self.width == old(self).width,
                self.height == old(self).height,
                forall|x: int, y: int|
                    old(self).in_bounds(x, y) ==> #[trigger] self.pix(x, y) == (
                    if rect.contains_spec(x, y) && y - rect.top_spec() < j {
                        *value
                    } else {
                        old(self).pix(x, y)
                    }),
            decreases rh - j,
        {
            let mut i: u32 = 0;
            while i < rw
                invariant
                    i <= rw,
                    j < rh,
                    rw == rect.width,
                    rh == rect.height,
                    l == rect.left,
                    t == rect.top,
                    rect.wf(),
                    rect.right_spec() < old(self).width,
                    rect.bottom_spec() < old(self).height,
                    self.wf(),
                    self.width == old(self).width,
                    self.height == old(self).height,
                    forall|x: int, y: int|
                        old(self).in_bounds(x, y) ==> #[trigger] self.pix(x, y) == (
                        if rect.contains_spec(x, y) && cell_done(
                            x - rect.left_spec(),
                            y - rect.top_spec(),
                            i as int,
                            j as int,
                        ) {
                            *value
                        } else {
                            old(self).pix(x, y)
                        }),
                decreases rw - i,
            {
                let ghost prev = *self;
                self.put_pixel(l + i, t + j, *value);
                proof {
                    assert forall|x: int, y: int| old(self).in_bounds(x, y) implies #[trigger] self.pix(
                        x,
                        y,
                    ) == (if rect.contains_spec(x, y) && cell_done(
                        x - rect.left_spec(),
                        y - rect.top_spec(),
                        i + 1 as int,
                        j as int,
                    ) {
                        *value
                    } else {
                        old(self).pix(x, y)
                    }) by {
                        lemma_row_major(
                            self.width as int,
                            self.height as int,
                            l + i as int,
                            t + j as int,
                        );
                        if x == l + i && y == t + j {
                        } else {
                            lemma_row_major(self.width as int, self.height as int, x, y);
                            lemma_row_major_distinct(
                                self.width as int,
                                x,
                                y,
                                l + i as int,
                                t + j as int,
                            );
                            assert(self.pix(x, y) == prev.pix(x, y));
                        }
                    }
                }
                i = i + 1;
            }
            j = j + 1;
        }
    }

    /// Blit (i.e. copy) a `Rect` from the source image onto the
    /// destination image.
    ///
    /// Fails with `RectSizeMismatch` when the two rectangles differ in
    /// size, and with `RectOutOfBounds` when either rectangle does not fit
    /// its image; the destination is then left unchanged. On success the
    /// source rectangle of `img` is copied pixel-for-pixel onto the
    /// destination rectangle of `self`.
    pub fn blit_rect(&mut self, src_rect: Rect, dst_rect: Rect, img: &ImageBuffer2D<P>) -> (r:
        Result<(), ImageError>)
        requires
            old(self).wf(),
            img.wf(),
            src_rect.wf(),
            dst_rect.wf(),
        ensures
            final(self).wf(),
            final(self).width == old(self).width,
            final(self).height == old(self).height,
            r is Ok <==> src_rect.width == dst_rect.width && src_rect.height == dst_rect.height
                && src_rect.right_spec() < img.width_spec() && src_rect.bottom_spec()
                < img.height_spec() && dst_rect.right_spec() < old(self).width_spec()
                && dst_rect.bottom_spec() < old(self).height_spec(),
            r == Result::<(), ImageError>::Err(ImageError::RectSizeMismatch) <==> !(
            src_rect.width == dst_rect.width && src_rect.height == dst_rect.height),
            r == Result::<(), ImageError>::Err(ImageError::RectOutOfBounds) <==> src_rect.width
                == dst_rect.width && src_rect.height == dst_rect.height && !(src_rect.right_spec()
                < img.width_spec() && src_rect.bottom_spec() < img.height_spec()
                && dst_rect.right_spec() < old(self).width_spec() && dst_rect.bottom_spec() < old(
                self,
            ).height_spec()),
            r is Err ==> *final(self) == *old(self),
            r is Ok ==> forall|x: int, y: int|
                old(self).in_bounds(x, y) ==> #[trigger] final(self).pix(x, y) == (
                if dst_rect.contains_spec(x, y) {
                    img.pix(
                        src_rect.left_spec() + (x - dst_rect.left_spec()),
                        src_rect.top_spec() + (y - dst_rect.top_spec()),
                    )
                } else {
                    old(self).pix(x, y)
                }),
    {
        let (ws, hs) = src_rect.size();
        let (wd, hd) = dst_rect.size();
        if !(ws == wd && hs == hd) {
            return Err(ImageError::RectSizeMismatch);
        }
        if !(src_rect.right() < img.width && src_rect.bottom() < img.height) {
            return Err(ImageError::RectOutOfBounds);
        }
        if !(dst_rect.right() < self.width && dst_rect.bottom() < self.height) {
            return Err(ImageError::RectOutOfBounds);
        }
        let sl = src_rect.left();
        let st = src_rect.top();
        let dl = dst_rect.left();
        let dt = dst_rect.top();
        let mut j: u32 = 0;
        while j < hd
            invariant
                j <= hd,
                ws == wd && hs == hd,
                wd == dst_rect.width,
                hd == dst_rect.height,
                src_rect.width == dst_rect.width,
                src_rect.height == dst_rect.height,
                sl == src_rect.left,
                st == src_rect.top,
                dl == dst_rect.left,
                dt == dst_rect.top,
                src_rect.wf(),
                dst_rect.wf(),
                img.wf(),
                src_rect.right_spec() < img.width_spec(),
                src_rect.bottom_spec() < img.height_spec(),
                dst_rect.right_spec() < old(self).width_spec(),
                dst_rect.bottom_spec() < old(self).height_spec(),
                self.wf(),
                self.width == old(self).width,
                self.height == old(self).height,
                forall|x: int, y: int|
                    old(self).in_bounds(x, y) ==> #[trigger] self.pix(x, y) == (
                    if dst_rect.contains_spec(x, y) && y - dst_rect.top_spec() < j {
                        img.pix(
                            src_rect.left_spec() + (x - dst_rect.left_spec()),
                            src_rect.top_spec() + (y - dst_rect.top_spec()),
                        )
                    } else {
                        old(self).pix(x, y)
                    }),
            decreases hd - j,
        {
            let mut i: u32 = 0;
            while i < wd
                invariant
                    i <= wd,
                    j < hd,
                    ws == wd && hs == hd,
                    wd == dst_rect.width,
                    hd == dst_rect.height,
                    src_rect.width == dst_rect.width,
                    src_rect.height == dst_rect.height,
                    sl == src_rect.left,
                    st == src_rect.top,
                    dl == dst_rect.left,
                    dt == dst_rect.top,
                    src_rect.wf(),
                    dst_rect.wf(),
                    img.wf(),
                    src_rect.right_spec() < img.width_spec(),
                    src_rect.bottom_spec() < img.height_spec(),
                    dst_rect.right_spec() < old(self).width_spec(),
                    dst_rect.bottom_spec() < old(self).height_spec(),
                    self.wf(),
                    self.width == old(self).width,
                    self.height == old(self).height,
                    forall|x: int, y: int|
                        old(self).in_bounds(x, y) ==> #[trigger] self.pix(x, y) == (
                        if dst_rect.contains_spec(x, y) && cell_done(
                            x - dst_rect.left_spec(),
                            y - dst_rect.top_spec(),
                            i as int,
                            j as int,
                        ) {
                            img.pix(
                                src_rect.left_spec() + (x - dst_rect.left_spec()),
                                src_rect.top_spec() + (y - dst_rect.top_spec()),
                            )
                        } else {
                            old(self).pix(x, y)
                        }),
                decreases wd - i,
            {
                let ghost prev = *self;
                let p = img.get_pixel(sl + i, st + j);
                self.put_pixel(dl + i, dt + j, p);
                proof {
                    assert forall|x: int, y: int| old(self).in_bounds(x, y) implies #[trigger] self.pix(
                        x,
                        y,
                    ) == (if dst_rect.contains_spec(x, y) && cell_done(
                        x - dst_rect.left_spec(),
                        y - dst_rect.top_spec(),
                        i + 1 as int,
                        j as int,
                    ) {
                        img.pix(
                            src_rect.left_spec() + (x - dst_rect.left_spec()),
                            src_rect.top_spec() + (y - dst_rect.top_spec()),
                        )
                    } else {
                        old(self).pix(x, y)
                    }) by {
                        lemma_row_major(
                            self.width as int,
                            self.height as int,
                            dl + i as int,
                            dt + j as int,
                        );
                        if x == dl + i && y == dt + j {
                        } else {
                            lemma_row_major(self.width as int, self.height as int, x, y);
                            lemma_row_major_distinct(
                                self.width as int,
                                x,
                                y,
                                dl + i as int,
                                dt + j as int,
                            );
                            assert(self.pix(x, y) == prev.pix(x, y));
                        }
                    }
                }
                i = i + 1;
            }
            j = j + 1;
        }
        Ok(())
    }
}

/// Chunk `i` of `n` chunks of width `c` lies inside a buffer of length
/// `n * c`.
proof fn lemma_chunk_bounds(n: int, c: int, i: int)
    requires
        0 <= i < n,
        1 <= c,
    ensures
        0 <= i * c,
        (i + 1) * c <= n * c,
        i * c + c == (i + 1) * c,
    decreases n,
{
    assert(0 <= i * c && (i + 1) * c <= n * c && i * c + c == (i + 1) * c) by (nonlinear_arith)
        requires
            0 <= i < n && 1 <= c,
    ;
}

/// Discard the alpha component of an `RgbA` image: every output pixel
/// holds the first three channels of the corresponding input pixel.
pub fn rgba_to_rgb<P: Primitive>(img: &ImageBuffer2D<RgbA<P>>) -> (r: ImageBuffer2D<Rgb<P>>)
    requires
        img.wf(),
    ensures
        r.wf(),
        r.width_spec() == img.width_spec(),
        r.height_spec() == img.height_spec(),
        forall|k: int|
            0 <= k < img.pixels().len() ==> (#[trigger] r.pixels()[k]).data@
                == img.pixels()[k].data@.subrange(0, 3),
{
    let n = img.data.len();
    let mut data: Vec<Rgb<P>> = Vec::new();
    let mut k: usize = 0;
    while k < n
        invariant
            k <= n,
            n == img.pixels().len(),
            data@.len() == k,
            forall|m: int|
                0 <= m < k ==> (#[trigger] data@[m]).data@ == img.pixels()[m].data@.subrange(0, 3),
        decreases n - k,
    {
        let p = &img.data[k];
        let q = Rgb::new([p.data[0], p.data[1], p.data[2]]);
        proof {
            assert(q.data@ =~= img.pixels()[k as int].data@.subrange(0, 3));
        }
        data.push(q);
        k = k + 1;
    }
    ImageBuffer2D { width: img.width, height: img.height, data }
}

/// Discard the alpha component of a `LumaA` image: every output pixel
/// holds the first channel of the corresponding input pixel.
pub fn luma_alpha_to_luma<P: Primitive>(img: &ImageBuffer2D<LumaA<P>>) -> (r: ImageBuffer2D<
    Luma<P>,
>)
    requires
        img.wf(),
    ensures
        r.wf(),
        r.width_spec() == img.width_spec(),
        r.height_spec() == img.height_spec(),
        forall|k: int|
            0 <= k < img.pixels().len() ==> (#[trigger] r.pixels()[k]).data@
                == img.pixels()[k].data@.subrange(0, 1),
{
    let n = img.data.len();
    let mut data: Vec<Luma<P>> = Vec::new();
    let mut k: usize = 0;
    while k < n
        invariant
            k <= n,
            n == img.pixels().len(),
            data@.len() == k,
            forall|m: int|
                0 <= m < k ==> (#[trigger] data@[m]).data@ == img.pixels()[m].data@.subrange(0, 1),
        decreases n - k,
    {
        let p = &img.data[k];
        let q = Luma::new([p.data[0]]);
        proof {
            assert(q.data@ =~= img.pixels()[k as int].data@.subrange(0, 1));
        }
        data.push(q);
        k = k + 1;
    }
    ImageBuffer2D { width: img.width, height: img.height, data }
}

} // verus!
