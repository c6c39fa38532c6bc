//! Drawing functions.

use vstd::prelude::*;

use crate::image2d::{lemma_row_major, lemma_row_major_distinct, ImageBuffer2D};
use crate::traits::Pixel;

verus! {

/// The set of cells covered by a `+` shaped cross centred on `(cx, cy)`
/// with the given arm length.
///
/// Both arms are clipped against the image width; the vertical arm is
/// additionally clipped against the height. Clipping the vertical arm
/// with the width as well is the established behaviour of this function
/// and is kept.
pub open spec fn on_cross(w: int, h: int, cx: int, cy: int, size: int, x: int, y: int) -> bool {
    let xs = if cx >= size {
        cx - size
    } else {
        0
    };
    let xe = vstd::math::min(cx + size, w - 1);
    let ys = if cy >= size {
        cy - size
    } else {
        0
    };
    let ye = vstd::math::min(cy + size, w - 1);
    ||| (y == cy && xs <= x <= xe)
    ||| (x == cx && ys <= y <= vstd::math::min(ye, h - 1))
}

/// Draw a `+` shaped cross.
///
/// Cells on the cross (see [`on_cross`]) are set to `color`; every other
/// cell is untouched. A centre outside the image leaves it unchanged.
pub fn draw_cross<P: Pixel>(img: &mut ImageBuffer2D<P>, coords: (u32, u32), size: u32, color: P)
    requires
        old(img).wf(),
        coords.0 + size <= u32::MAX,
        coords.1 + size <= u32::MAX,
        (coords.0 < old(img).width && coords.1 < old(img).height) ==> coords.1
            <= old(img).width_spec() - 1 + size,
    ensures
        final(img).wf(),
        final(img).width == old(img).width,
        final(img).height == old(img).height,
        coords.0 < old(img).width && coords.1 < old(img).height ==> forall|x: int, y: int|
            old(img).in_bounds(x, y) ==> #[trigger] final(img).pix(x, y) == (if on_cross(
                old(img).width_spec(),
                old(img).height_spec(),
                coords.0 as int,
                coords.1 as int,
                size as int,
                x,
                y,
            ) {
                color
            } else {
                old(img).pix(x, y)
            }),
        !(coords.0 < old(img).width && coords.1 < old(img).height) ==> *final(img) == *old(img),
{
    let (cx, cy) = coords;
    let w = img.width;
    let h = img.height;
    if !(cx < w && cy < h) {
        return ;
    }
    let xs: u32 = if cx >= size {
        cx - size
    } else {
        0
    };
    let xe: u32 = if cx + size <= w - 1 {
        cx + size
    } else {
        w - 1
    };
    let ys: u32 = if cy >= size {
        cy - size
    } else {
        0
    };
    let ye: u32 = if cy + size <= w - 1 {
        cy + size
    } else {
        w - 1
    };
    let ye_v: u32 = if ye <= h - 1 {
        ye
    } else {
        h - 1
    };
    let mut x: u32 = xs;
    while x <= xe
        invariant
            xs <= x,
            x <= xe + 1,
            xs <= cx <= xe < w,
            cy < h,
            img.wf(),
            img.width == w,
            img.height == h,
            img.width == old(img).width,
            img.height == old(img).height,
            forall|xx: int, yy: int|
                old(img).in_bounds(xx, yy) ==> #[trigger] img.pix(xx, yy) == (if yy == cy && xs
                    <= xx < x {
                    color
                } else {
                    old(img).pix(xx, yy)
                }),
        decreases xe + 1 - x,
    {
        let ghost prev = *img;
        img.put_pixel(x, cy, color);
        proof {
            assert forall|xx: int, yy: int| old(img).in_bounds(xx, yy) implies #[trigger] img.pix(
                xx,
                yy,
            ) == (if yy == cy && xs <= xx < x + 1 {
                color
            } else {
                old(img).pix(xx, yy)
            }) by {
                lemma_row_major(w as int, h as int, x as int, cy as int);
                if xx == x && yy == cy {
                } else {
                    lemma_row_major(w as int, h as int, xx, yy);
                    lemma_row_major_distinct(w as int, xx, yy, x as int, cy as int);
                    assert(img.pix(xx, yy) == prev.pix(xx, yy));
                }
            }
        }
        x = x + 1;
    }
    let mut y: u32 = ys;
    while y <= ye_v
        invariant
            ys <= y,
            y <= ye_v + 1,
            ys <= cy,
            ye_v < h,
            ye_v <= ye,
            ye <= h - 1 ==> ye_v == ye,
            cx < w,
            cy < h,
            img.wf(),
            img.width == w,
            img.height == h,
            img.width == old(img).width,
            img.height == old(img).height,
            forall|xx: int, yy: int|
                old(img).in_bounds(xx, yy) ==> #[trigger] img.pix(xx, yy) == (if (yy == cy && xs
                    <= xx <= xe) || (xx == cx && ys <= yy < y) {
                    color
                } else {
                    old(img).pix(xx, yy)
                }),
        decreases ye_v + 1 - y,
    {
        let ghost prev = *img;
        img.put_pixel(cx, y, color);
        proof {
            assert forall|xx: int, yy: int| old(img).in_bounds(xx, yy) implies #[trigger] img.pix(
                xx,
                yy,
            ) == (if (yy == cy && xs <= xx <= xe) || (xx == cx && ys <= yy < y + 1) {
                color
            } else {
                old(img).pix(xx, yy)
            }) by {
                lemma_row_major(w as int, h as int, cx as int, y as int);
                if xx == cx && yy == y {
                } else {
                    lemma_row_major(w as int, h as int, xx, yy);
                    lemma_row_major_distinct(w as int, xx, yy, cx as int, y as int);
                    assert(img.pix(xx, yy) == prev.pix(xx, yy));
                }
            }
        }
        y = y + 1;
    }
}

} // verus!
