//! The border-padding engine.
//!
//! Padding an image by `radius` produces a buffer enlarged by `radius` on
//! all four sides, with the source placed at offset `(radius, radius)` and
//! the margin filled by one of four border-extension policies. The content
//! of every output cell is pinned down by [`padded_pixel`]: writing
//! `s = u - radius`, `t = v - radius` for the source-relative coordinates,
//! output cell `(u, v)` holds
//!
//! - **Zero**: the source pixel at `(s, t)`, or the all-zero pixel outside
//!   the source;
//! - **Replicate**: the nearest source pixel, i.e. the source indices
//!   clamped into range;
//! - **Wrap**: the source pixel at `(s mod width, t mod height)`, the
//!   toroidal extension;
//! - **Mirror**: the source pixel with each index reflected at the border,
//!   without repeating the border pixel itself (`-1` maps to `1`, `width`
//!   maps to `width - 2`).

use vstd::prelude::*;

use crate::image2d::ImageBuffer2D;
use crate::traits::Pixel;

verus! {

/// The four border-extension policies.
#[derive(Debug, Clone, Copy, PartialEq, Eq, Structural)]
pub enum Padding {
    /// Fill the margin with zero pixels.
    Zero,
    /// Replicate the nearest border pixel.
    Replicate,
    /// Wrap around to the opposite edge (toroidal).
    Wrap,
    /// Reflect at the border, not repeating the border pixel.
    Mirror,
}

/// A source index clamped into `[0, n)`: the replicating extension.
pub open spec fn clamp_idx(s: int, n: int) -> int {
    if s < 0 {
        0
    } else if s >= n {
        n - 1
    } else {
        s
    }
}

/// A source index wrapped into `[0, n)`: the toroidal extension. The spec
/// `%` is Euclidean, so the result is nonnegative also for negative `s`.
pub open spec fn wrap_idx(s: int, n: int) -> int {
    s % n
}

/// A source index reflected at the borders, with the border pixel itself
/// not repeated: `-1` maps to `1` and `n` maps to `n - 2`. Total for
/// `-n < s < 2n - 1`.
pub open spec fn mirror_idx(s: int, n: int) -> int {
    if s < 0 {
        -s
    } else if s >= n {
        2 * n - 2 - s
    } else {
        s
    }
}

impl Padding {
    /// The radii for which the policy is defined on `img`: wrapping cannot
    /// reach further than one full image, mirroring one image less its
    /// border pixel.
    pub open spec fn radius_fits<P: Pixel>(self, img: ImageBuffer2D<P>, radius: int) -> bool {
        match self {
            Padding::Zero => true,
            Padding::Replicate => true,
            Padding::Wrap => radius <= img.width_spec() && radius <= img.height_spec(),
            Padding::Mirror => radius < img.width_spec() && radius < img.height_spec(),
        }
    }
}

/// What the padded image holds at `(u, v)`: the single source of truth for
/// all four policies.
pub open spec fn padded_pixel<P: Pixel>(
    img: ImageBuffer2D<P>,
    mode: Padding,
    radius: int,
    u: int,
    v: int,
) -> P {
    let s = u - radius;
    let t = v - radius;
    match mode {
        Padding::Zero => if img.in_bounds(s, t) {
            img.pix(s, t)
        } else {
            P::zero_spec()
        },
        Padding::Replicate => img.pix(
            clamp_idx(s, img.width_spec()),
            clamp_idx(t, img.height_spec()),
        ),
        Padding::Wrap => img.pix(wrap_idx(s, img.width_spec()), wrap_idx(t, img.height_spec())),
        Padding::Mirror => img.pix(
            mirror_idx(s, img.width_spec()),
            mirror_idx(t, img.height_spec()),
        ),
    }
}

/// The machine limits under which an image can be padded at all: the
/// enlarged dimensions stay representable and the enlarged pixel count
/// fits in memory.
pub open spec fn pad_dims_ok<P: Pixel>(img: ImageBuffer2D<P>, radius: int) -> bool {
    &&& img.width_spec() + 2 * radius <= u32::MAX
    &&& img.height_spec() + 2 * radius <= u32::MAX
    &&& (img.width_spec() + 2 * radius) * (img.height_spec() + 2 * radius) <= usize::MAX
}

/// Clamped source index for one axis of the replicate policy.
fn idx_replicate(u: u32, radius: u32, n: u32) -> (r: u32)
    requires
        1 <= n,
    ensures
        r as int == clamp_idx(u - radius, n as int),
        r < n,
{
    if u < radius {
        0
    } else if u - radius >= n {
        n - 1
    } else {
        u - radius
    }
}

/// Wrapped source index for one axis of the toroidal policy.
fn idx_wrap(u: u32, radius: u32, n: u32) -> (r: u32)
    requires
        1 <= n,
        radius <= n,
        u < n + 2 * radius,
    ensures
        r as int == wrap_idx(u - radius, n as int),
        r < n,
{
    if u < radius {
        let r = n - radius + u;
        proof {
            vstd::arithmetic::div_mod::lemma_fundamental_div_mod_converse_mod(
                u - radius,
                n as int,
                -1,
                r as int,
            );
        }
        r
    } else if u - radius < n {
        let r = u - radius;
        proof {
            vstd::arithmetic::div_mod::lemma_fundamental_div_mod_converse_mod(
                u - radius,
                n as int,
                0,
                r as int,
            );
        }
        r
    } else {
        let r = u - radius - n;
        proof {
            vstd::arithmetic::div_mod::lemma_fundamental_div_mod_converse_mod(
                u - radius,
                n as int,
                1,
                r as int,
            );
        }
        r
    }
}

/// Reflected source index for one axis of the mirror policy.
fn idx_mirror(u: u32, radius: u32, n: u32) -> (r: u32)
    requires
        radius < n,
        u < n + 2 * radius,
    ensures
        r as int == mirror_idx(u - radius, n as int),
        r < n,
{
    if u < radius {
        radius - u
    } else if u - radius < n {
        u - radius
    } else {
        let m: u64 = 2 * (n as u64) - 2 + radius as u64 - u as u64;
        m as u32
    }
}

/// One cell of the padded image, computed from the source.
fn padded_get<P: Pixel>(img: &ImageBuffer2D<P>, mode: Padding, radius: u32, u: u32, v: u32) -> (p:
    P)
    requires
        img.wf(),
        1 <= img.width,
        1 <= img.height,
        mode.radius_fits(*img, radius as int),
        u < img.width + 2 * radius,
        v < img.height + 2 * radius,
    ensures
        p == padded_pixel(*img, mode, radius as int, u as int, v as int),
{
    match mode {
        Padding::Zero => {
            if u >= radius && u - radius < img.width && v >= radius && v - radius < img.height {
                img.get_pixel(u - radius, v - radius)
            } else {
                P::zero()
            }
        },
        Padding::Replicate => {
            let sx = idx_replicate(u, radius, img.width);
            let sy = idx_replicate(v, radius, img.height);
            img.get_pixel(sx, sy)
        },
        Padding::Wrap => {
            let sx = idx_wrap(u, radius, img.width);
            let sy = idx_wrap(v, radius, img.height);
            img.get_pixel(sx, sy)
        },
        Padding::Mirror => {
            let sx = idx_mirror(u, radius, img.width);
            let sy = idx_mirror(v, radius, img.height);
            img.get_pixel(sx, sy)
        },
    }
}

impl Padding {
    /// Pad `img` by `radius` with this policy.
    ///
    /// The result is enlarged by `radius` on all four sides; cell `(u, v)`
    /// holds exactly [`padded_pixel`] of the source. In particular the
    /// source sits unchanged at offset `(radius, radius)`.
    pub fn apply<P: Pixel>(&self, img: &ImageBuffer2D<P>, radius: u32) -> (out: ImageBuffer2D<P>)
        requires
            img.wf(),
            1 <= img.width,
            1 <= img.height,
            self.radius_fits(*img, radius as int),
            pad_dims_ok(*img, radius as int),
        ensures
            out.wf(),
            out.width_spec() == img.width_spec() + 2 * radius,
            out.height_spec() == img.height_spec() + 2 * radius,
            forall|u: int, v: int|
                out.in_bounds(u, v) ==> #[trigger] out.pix(u, v) == padded_pixel(
                    *img,
                    *self,
                    radius as int,
                    u,
                    v,
                ),
    {
        let w: u32 = img.width + 2 * radius;
        let h: u32 = img.height + 2 * radius;
        let mode: Padding = *self;
        let f = |uv: (u32, u32)| -> (p: P)
            requires
                uv.0 < img.width + 2 * radius,
                uv.1 < img.height + 2 * radius,
            ensures
                p == padded_pixel(*img, mode, radius as int, uv.0 as int, uv.1 as int),
            { padded_get(img, mode, radius, uv.0, uv.1) };
        let out = ImageBuffer2D::<P>::generate(w, h, f);
        proof {
            assert forall|u: int, v: int| out.in_bounds(u, v) implies #[trigger] out.pix(u, v)
                == padded_pixel(*img, *self, radius as int, u, v) by {
                let uu = u as u32;
                let vv = v as u32;
                assert(call_ensures(f, ((uu, vv),), out.pix(uu as int, vv as int)));
            }
        }
        out
    }
}

/// Pad an image with zeros.
pub fn pad_zeros<P: Pixel>(img: &ImageBuffer2D<P>, radius: u32) -> (out: ImageBuffer2D<P>)
    requires
        img.wf(),
        1 <= img.width,
        1 <= img.height,
        pad_dims_ok(*img, radius as int),
    ensures
        out.wf(),
        out.width_spec() == img.width_spec() + 2 * radius,
        out.height_spec() == img.height_spec() + 2 * radius,
        forall|u: int, v: int|
            out.in_bounds(u, v) ==> #[trigger] out.pix(u, v) == padded_pixel(
                *img,
                Padding::Zero,
                radius as int,
                u,
                v,
            ),
{
    Padding::Zero.apply(img, radius)
}

/// Pad an image by replicating its borders.
pub fn pad_replicate<P: Pixel>(img: &ImageBuffer2D<P>, radius: u32) -> (out: ImageBuffer2D<P>)
    requires
        img.wf(),
        1 <= img.width,
        1 <= img.height,
        pad_dims_ok(*img, radius as int),
    ensures
        out.wf(),
        out.width_spec() == img.width_spec() + 2 * radius,
        out.height_spec() == img.height_spec() + 2 * radius,
        forall|u: int, v: int|
            out.in_bounds(u, v) ==> #[trigger] out.pix(u, v) == padded_pixel(
                *img,
                Padding::Replicate,
                radius as int,
                u,
                v,
            ),
{
    Padding::Replicate.apply(img, radius)
}

/// Pad an image by wrapping around its borders.
pub fn pad_wrap<P: Pixel>(img: &ImageBuffer2D<P>, radius: u32) -> (out: ImageBuffer2D<P>)
    requires
        img.wf(),
        1 <= img.width,
        1 <= img.height,
        radius <= img.width_spec(),
        radius <= img.height_spec(),
        pad_dims_ok(*img, radius as int),
    ensures
        out.wf(),
        out.width_spec() == img.width_spec() + 2 * radius,
        out.height_spec() == img.height_spec() + 2 * radius,
        forall|u: int, v: int|
            out.in_bounds(u, v) ==> #[trigger] out.pix(u, v) == padded_pixel(
                *img,
                Padding::Wrap,
                radius as int,
                u,
                v,
            ),
{
    Padding::Wrap.apply(img, radius)
}

/// Pad an image by mirroring its borders.
pub fn pad_mirror<P: Pixel>(img: &ImageBuffer2D<P>, radius: u32) -> (out: ImageBuffer2D<P>)
    requires
        img.wf(),
        1 <= img.width,
        1 <= img.height,
        radius < img.width_spec(),
        radius < img.height_spec(),
        pad_dims_ok(*img, radius as int),
    ensures
        out.wf(),
        out.width_spec() == img.width_spec() + 2 * radius,
        out.height_spec() == img.height_spec() + 2 * radius,
        forall|u: int, v: int|
            out.in_bounds(u, v) ==> #[trigger] out.pix(u, v) == padded_pixel(
                *img,
                Padding::Mirror,
                radius as int,
                u,
                v,
            ),
{
    Padding::Mirror.apply(img, radius)
}

/// Padding interior law: inside the source footprint, the padded image is
/// the source itself whatever the policy. Together with the contracts of
/// the padding functions this says that the padded image restricted to the
/// rectangle of size `(width, height)` at offset `(radius, radius)` is
/// exactly the original image.
pub proof fn lemma_padded_pixel_interior<P: Pixel>(
    img: ImageBuffer2D<P>,
    mode: Padding,
    radius: int,
    s: int,
    t: int,
)
    requires
        img.wf(),
        img.in_bounds(s, t),
        0 <= radius,
    ensures
        padded_pixel(img, mode, radius, s + radius, t + radius) == img.pix(s, t),
{
    match mode {
        Padding::Zero => {},
        Padding::Replicate => {},
        Padding::Wrap => {
            vstd::arithmetic::div_mod::lemma_small_mod(s as nat, img.width as nat);
            vstd::arithmetic::div_mod::lemma_small_mod(t as nat, img.height as nat);
        },
        Padding::Mirror => {},
    }
}

} // verus!
