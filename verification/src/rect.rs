//! The `Rect` value type: an axis-aligned integer rectangle.

use vstd::prelude::*;

use crate::error::ImageError;
use crate::image2d::ImageBuffer2D;
use crate::traits::{Pixel, Region};

verus! {

/// An axis-aligned rectangle `(left, top, width, height)` with strictly
/// positive dimensions.
///
/// Well-formed values (see [`Rect::wf`]) are only built through
/// [`Rect::new`] or [`Rect::try_new`]; every operation below both assumes
/// and preserves well-formedness.
#[derive(Debug, Clone, Copy, PartialEq, Eq, Structural)]
pub struct Rect {
    /// The leftmost column covered by the rectangle.
    pub left: u32,
    /// The topmost row covered by the rectangle.
    pub top: u32,
    /// The number of columns covered; strictly positive when well-formed.
    pub width: u32,
    /// The number of rows covered; strictly positive when well-formed.
    pub height: u32,
}

impl Rect {
    /// The rectangle invariant: strictly positive dimensions, and the
    /// derived right/bottom coordinates representable as `u32`.
    pub open spec fn wf(self) -> bool {
        &&& 1 <= self.width
        &&& 1 <= self.height
        &&& self.left + self.width - 1 <= u32::MAX
        &&& self.top + self.height - 1 <= u32::MAX
    }

    /// The left coordinate, as a mathematical integer.
    pub open spec fn left_spec(self) -> int {
        self.left as int
    }

    /// The top coordinate, as a mathematical integer.
    pub open spec fn top_spec(self) -> int {
        self.top as int
    }

    /// The width, as a mathematical integer.
    pub open spec fn width_spec(self) -> int {
        self.width as int
    }

    /// The height, as a mathematical integer.
    pub open spec fn height_spec(self) -> int {
        self.height as int
    }

    /// The rightmost column covered by the rectangle.
    pub open spec fn right_spec(self) -> int {
        self.left + self.width - 1
    }

    /// The bottommost row covered by the rectangle.
    pub open spec fn bottom_spec(self) -> int {
        self.top + self.height - 1
    }

    /// Build a new `Rect`, rejecting invalid requests recoverably.
    ///
    /// Fails with `InvalidRectangle` exactly when the requested width or
    /// height is zero. Coordinates whose right or bottom edge would not be
    /// representable are a precondition violation (a machine limit, not a
    /// shape the caller can mean).
    pub fn try_new(x: u32, y: u32, w: u32, h: u32) -> (r: Result<Rect, ImageError>)
        requires
            x + w - 1 <= u32::MAX,
            y + h - 1 <= u32::MAX,
        ensures
            r is Ok <==> 1 <= w && 1 <= h,
            r is Err <==> r == Result::<Rect, ImageError>::Err(ImageError::InvalidRectangle) && (w
                == 0 || h == 0),
            r is Ok ==> {
                let rect = r->Ok_0;
                &&& rect.wf()
                &&& rect.left_spec() == x
                &&& rect.top_spec() == y
                &&& rect.width_spec() == w
                &&& rect.height_spec() == h
            },
    {
        if w >= 1 && h >= 1 {
            Ok(Rect { left: x, top: y, width: w, height: h })
        } else {
            Err(ImageError::InvalidRectangle)
        }
    }

    /// Create a new `Rect`.
    ///
    /// Zero-sized rectangles are a precondition violation here, as are
    /// rectangles whose right or bottom coordinate would not be
    /// representable: this constructor is for callers that can already
    /// show their rectangle is meaningful. [`Rect::try_new`] is the
    /// recoverable form, which reports a zero width or height as
    /// `InvalidRectangle` instead.
    pub fn new(x: u32, y: u32, w: u32, h: u32) -> (r: Rect)
        requires
            1 <= w,
            1 <= h,
            x + w - 1 <= u32::MAX,
            y + h - 1 <= u32::MAX,
        ensures
            r.wf(),
            r.left_spec() == x,
            r.top_spec() == y,
            r.width_spec() == w,
            r.height_spec() == h,
    {
        Rect { left: x, top: y, width: w, height: h }
    }

    /// Return the left coordinate of the `Rect`.
    pub fn left(&self) -> (r: u32)
        ensures
            r == self.left_spec(),
    {
        self.left
    }

    /// Return the top coordinate of the `Rect`.
    pub fn top(&self) -> (r: u32)
        ensures
            r == self.top_spec(),
    {
        self.top
    }

    /// Return the right coordinate of the `Rect`.
    pub fn right(&self) -> (r: u32)
        requires
            self.wf(),
        ensures
            r == self.right_spec(),
    {
        self.width - 1 + self.left
    }

    /// Return the bottom coordinate of the `Rect`.
    pub fn bottom(&self) -> (r: u32)
        requires
            self.wf(),
        ensures
            r == self.bottom_spec(),
    {
        self.height - 1 + self.top
    }

    /// Return the left and top coordinates of the `Rect`.
    pub fn position(&self) -> (r: (u32, u32))
        ensures
            r.0 == self.left_spec(),
            r.1 == self.top_spec(),
    {
        (self.left, self.top)
    }

    /// Return the width of the `Rect`.
    pub fn width(&self) -> (r: u32)
        ensures
            r == self.width_spec(),
    {
        self.width
    }

    /// Return the height of the `Rect`.
    pub fn height(&self) -> (r: u32)
        ensures
            r == self.height_spec(),
    {
        self.height
    }

    /// Return the width and height of the `Rect`.
    pub fn size(&self) -> (r: (u32, u32))
        ensures
            r.0 == self.width_spec(),
            r.1 == self.height_spec(),
    {
        (self.width, self.height)
    }

    /// Whether two rectangles overlap in at least one pixel.
    pub open spec fn overlaps(self, other: Rect) -> bool {
        &&& vstd::math::max(self.left_spec(), other.left_spec()) <= vstd::math::min(
            self.right_spec(),
            other.right_spec(),
        )
        &&& vstd::math::max(self.top_spec(), other.top_spec()) <= vstd::math::min(
            self.bottom_spec(),
            other.bottom_spec(),
        )
    }

    /// Return the intersection of two `Rect`s if it exists, `None` otherwise.
    ///
    /// The intersection exists exactly when the rectangles overlap; it is
    /// then the rectangle spanning the shared columns and rows.
    pub fn intersection(&self, other: &Rect) -> (res: Option<Rect>)
        requires
            self.wf(),
            other.wf(),
        ensures
            res is Some <==> self.overlaps(*other),
            res is Some ==> {
                let r = res->Some_0;
                &&& r.wf()
                &&& r.left_spec() == vstd::math::max(self.left_spec(), other.left_spec())
                &&& r.top_spec() == vstd::math::max(self.top_spec(), other.top_spec())
                &&& r.right_spec() == vstd::math::min(self.right_spec(), other.right_spec())
                &&& r.bottom_spec() == vstd::math::min(self.bottom_spec(), other.bottom_spec())
            },
    {
        let left = if self.left >= other.left {
            self.left
        } else {
            other.left
        };
        let top = if self.top >= other.top {
            self.top
        } else {
            other.top
        };
        let self_right = self.right();
        let other_right = other.right();
        let right = if self_right <= other_right {
            self_right
        } else {
            other_right
        };
        let self_bottom = self.bottom();
        let other_bottom = other.bottom();
        let bottom = if self_bottom <= other_bottom {
            self_bottom
        } else {
            other_bottom
        };
        if left <= right && top <= bottom {
            Some(Rect { left, top, width: right - left + 1, height: bottom - top + 1 })
        } else {
            None
        }
    }
}

impl Rect {
    /// Whether the rectangle lies fully inside the bounds of `img`.
    pub open spec fn fits_spec<P: Pixel>(self, img: ImageBuffer2D<P>) -> bool {
        &&& self.right_spec() < img.width_spec()
        &&& self.bottom_spec() < img.height_spec()
    }

    /// Test whether the Rect fits in the given image.
    pub fn fits_image<P: Pixel>(&self, img: &ImageBuffer2D<P>) -> (r: bool)
        requires
            self.wf(),
        ensures
            r == self.fits_spec(*img),
    {
        self.right() < img.width() && self.bottom() < img.height()
    }

    /// Crop the `Rect` to the biggest sub-`Rect` that fits `img` if it
    /// exists, `None` otherwise.
    ///
    /// The position is kept; the right and bottom edges are clipped to the
    /// image bounds. The result is `None` exactly when the rectangle
    /// starts beyond the image.
    pub fn crop_to_image<P: Pixel>(&self, img: &ImageBuffer2D<P>) -> (res: Option<Rect>)
        requires
            self.wf(),
            1 <= img.width_spec(),
            1 <= img.height_spec(),
        ensures
            res is Some <==> self.left_spec() < img.width_spec() && self.top_spec()
                < img.height_spec(),
            res is Some ==> {
                let r = res->Some_0;
                &&& r.wf()
                &&& r.left_spec() == self.left_spec()
                &&& r.top_spec() == self.top_spec()
                &&& r.right_spec() == vstd::math::min(self.right_spec(), img.width_spec() - 1)
                &&& r.bottom_spec() == vstd::math::min(self.bottom_spec(), img.height_spec() - 1)
            },
    {
        let full = Rect::new(0, 0, img.width(), img.height());
        self.intersection(&full)
    }
}

impl Region for Rect {
    open spec fn contains_spec(self, x: int, y: int) -> bool {
        &&& self.left_spec() <= x <= self.right_spec()
        &&& self.top_spec() <= y <= self.bottom_spec()
    }

    fn contains(&self, x: u32, y: u32) -> (r: bool) {
        x >= self.left && y >= self.top && x - self.left < self.width && y - self.top < self.height
    }
}

} // verus!
