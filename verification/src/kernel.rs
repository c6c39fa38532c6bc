//! Kernels and image convolution.
//!
//! A [`Kernel`] is a square, odd-sized (`2r + 1` by `2r + 1`) row-major
//! grid of integer weights together with a positive `divisor`: the weight
//! grid denotes the rational weights `elems[i] / divisor`, which lets the
//! normalised box kernel be represented exactly without floating point.
//!
//! [`Kernel::convolve`] computes, for every output coordinate and channel,
//! the weighted sum of the padded input window in the `i64` working range,
//! divides by the divisor (truncating), clamps into the *source* subpixel
//! range, and casts into the output subpixel type with the library's
//! zero-fallback policy. Clamping against the source bounds rather than
//! the output bounds is deliberate and kept as the established behaviour
//! of this engine.

use vstd::prelude::*;

use crate::error::ImageError;
use crate::image2d::ImageBuffer2D;
use crate::padding::{lemma_padded_pixel_interior, pad_dims_ok, padded_pixel, Padding};
use crate::traits::{
    abs, cast_or_zero, clamp_int, signed_div_64, trunc_div, Pixel, Primitive,
};

verus! {

/// The largest magnitude a value of the subpixel type `S` can take.
pub open spec fn max_abs_sp<S: Primitive>() -> int {
    vstd::math::max(-S::min_spec(), S::max_spec())
}

/// The sum of the absolute values of the first `k` weights.
pub open spec fn abs_weight_prefix(w: Seq<int>, k: int) -> int
    decreases k,
{
    if k <= 0 {
        0
    } else {
        abs_weight_prefix(w, k - 1) + abs(w[k - 1])
    }
}

/// The sum of the first `k` weights.
pub open spec fn weight_prefix(w: Seq<int>, k: int) -> int
    decreases k,
{
    if k <= 0 {
        0
    } else {
        weight_prefix(w, k - 1) + w[k - 1]
    }
}

/// Absolute prefix sums are nonnegative and grow with `k`.
pub proof fn lemma_abs_weight_prefix_mono(w: Seq<int>, k1: int, k2: int)
    requires
        0 <= k1 <= k2,
    ensures
        0 <= abs_weight_prefix(w, k1) <= abs_weight_prefix(w, k2),
    decreases k2,
{
    if k2 > k1 {
        lemma_abs_weight_prefix_mono(w, k1, k2 - 1);
    } else {
        if k1 > 0 {
            lemma_abs_weight_prefix_mono(w, 0, k1 - 1);
        }
    }
}

/// Channel `c` of the padded image at `(u, v)`, as a mathematical integer.
pub open spec fn padded_chan<P: Pixel>(
    img: ImageBuffer2D<P>,
    mode: Padding,
    radius: int,
    u: int,
    v: int,
    c: int,
) -> int {
    padded_pixel(img, mode, radius, u, v).chan()[c].sp()
}

/// The convolution sum for channel `c` of output cell `(x, y)`, over the
/// first `k` kernel positions: position `i` contributes weight `w[i]`
/// times the padded sample at `(x + i % d, y + i / d)`, where `d` is the
/// kernel's side length. Because the padding places the source at offset
/// `(radius, radius)`, the window starting at `(x, y)` in the padded image
/// is exactly the window centred on source pixel `(x, y)`.
pub open spec fn conv_sum<P: Pixel>(
    img: ImageBuffer2D<P>,
    mode: Padding,
    w: Seq<int>,
    radius: int,
    d: int,
    x: int,
    y: int,
    c: int,
    k: int,
) -> int
    decreases k,
{
    if k <= 0 {
        0
    } else {
        conv_sum(img, mode, w, radius, d, x, y, c, k - 1) + w[k - 1] * padded_chan(
            img,
            mode,
            radius,
            x + (k - 1) % d,
            y + (k - 1) / d,
            c,
        )
    }
}

/// What one channel of the convolution output is, given the window sum:
/// the sum is divided by the kernel divisor (truncating), clamped into the
/// source subpixel range `[S::min, S::max]`, and cast into the output
/// subpixel type with zero fallback.
pub open spec fn conv_result<S: Primitive, O: Primitive>(sum: int, divisor: int) -> int {
    cast_or_zero(
        clamp_int(trunc_div(sum, divisor), S::min_spec(), S::max_spec()),
        O::min_spec(),
        O::max_spec(),
    )
}

/// Symmetric odd kernel, whose center is the kernel origin.
///
/// The entries denote the rational weights `elems[i] / divisor`; plain
/// kernels built by [`Kernel::new`] have divisor one.
#[derive(Debug, Clone, PartialEq, Eq)]
pub struct Kernel<T: Primitive> {
    /// The weight numerators, row-major, `(2 * radius + 1)^2` of them.
    pub elems: Vec<T>,
    /// The kernel radius; the side length is `2 * radius + 1`.
    pub radius: u32,
    /// The positive denominator shared by all weights.
    pub divisor: i64,
}

impl<T: Primitive> Kernel<T> {
    /// The kernel invariant: an odd square's worth of weights and a
    /// positive divisor.
    pub open spec fn wf(self) -> bool {
        &&& self.elems@.len() == (2 * self.radius + 1) * (2 * self.radius + 1)
        &&& 1 <= self.divisor
    }

    /// The side length `2 * radius + 1`.
    pub open spec fn side_spec(self) -> int {
        2 * self.radius + 1
    }

    /// The weights as mathematical integers.
    pub open spec fn weights(self) -> Seq<int> {
        self.elems@.map_values(|w: T| w.sp())
    }

    /// The sum of the absolute values of all weights; the overflow budget
    /// of a convolution.
    pub open spec fn abs_weight_sum(self) -> int {
        abs_weight_prefix(self.weights(), self.weights().len() as int)
    }

    /// Create a new kernel with divisor one.
    ///
    /// Fails with `InvalidKernelSize` exactly when `elems` does not hold
    /// `(2 * radius + 1)^2` elements.
    pub fn new(elems: Vec<T>, radius: u32) -> (r: Result<Kernel<T>, ImageError>)
        ensures
            r is Ok <==> elems@.len() == (2 * radius + 1) * (2 * radius + 1),
            r is Err ==> r == Result::<Kernel<T>, ImageError>::Err(ImageError::InvalidKernelSize),
            r is Ok ==> {
                let k = r->Ok_0;
                &&& k.wf()
                &&& k.elems@ == elems@
                &&& k.radius == radius
                &&& k.divisor == 1
            },
    {
        Self::new_with_divisor(elems, radius, 1)
    }

    /// Create a new kernel whose weights are `elems[i] / divisor`.
    ///
    /// Fails with `InvalidKernelSize` when `elems` does not hold
    /// `(2 * radius + 1)^2` elements or when the divisor is not positive.
    pub fn new_with_divisor(elems: Vec<T>, radius: u32, divisor: i64) -> (r: Result<
        Kernel<T>,
        ImageError,
    >)
        ensures
            r is Ok <==> elems@.len() == (2 * radius + 1) * (2 * radius + 1) && 1 <= divisor,
            r is Err ==> r == Result::<Kernel<T>, ImageError>::Err(ImageError::InvalidKernelSize),
            r is Ok ==> {
                let k = r->Ok_0;
                &&& k.wf()
                &&& k.elems@ == elems@
                &&& k.radius == radius
                &&& k.divisor == divisor
            },
    {
        let side: u64 = 2 * radius as u64 + 1;
        proof {
            assert(side as int * side as int <= u128::MAX) by (nonlinear_arith)
                requires
                    0 <= side as int <= 2 * (u32::MAX as int) + 1,
            ;
        }
        let square: u128 = side as u128 * side as u128;
        if elems.len() as u128 == square && divisor >= 1 {
            Ok(Kernel { elems, radius, divisor })
        } else {
            Err(ImageError::InvalidKernelSize)
        }
    }
}

/// Dividing by a positive divisor cannot grow the magnitude, so the
/// quotient of an `i64`-ranged sum stays in the `i64` range.
pub proof fn lemma_trunc_div_fits(a: int, b: int)
    requires
        1 <= b,
        i64::MIN <= a <= i64::MAX,
    ensures
        i64::MIN <= trunc_div(a, b) <= i64::MAX,
        abs(trunc_div(a, b)) <= abs(a),
{
    crate::traits::lemma_trunc_div_by_magnitudes(a, b);
    vstd::arithmetic::div_mod::lemma_div_nonincreasing(abs(a), b);
    vstd::arithmetic::div_mod::lemma_div_pos_is_pos(abs(a), b);
}

/// The weighted window sum for one channel of one output cell, computed
/// over the padded image.
fn conv_channel<T, Ps, S>(
    kern: &Kernel<T>,
    padded: &ImageBuffer2D<Ps>,
    x: u32,
    y: u32,
    c: usize,
    Ghost(img): Ghost<ImageBuffer2D<Ps>>,
    Ghost(mode): Ghost<Padding>,
) -> (acc: i64) where T: Primitive, Ps: Pixel<Subpixel = S>, S: Primitive
    requires
        kern.wf(),
        img.wf(),
        1 <= img.width,
        1 <= img.height,
        mode.radius_fits(img, kern.radius as int),
        padded.wf(),
        padded.width_spec() == img.width_spec() + 2 * kern.radius,
        padded.height_spec() == img.height_spec() + 2 * kern.radius,
        forall|u: int, v: int|
            padded.in_bounds(u, v) ==> #[trigger] padded.pix(u, v) == padded_pixel(
                img,
                mode,
                kern.radius as int,
                u,
                v,
            ),
        x < img.width,
        y < img.height,
        c < Ps::n_spec(),
        kern.abs_weight_sum() * max_abs_sp::<S>() <= i64::MAX,
    ensures
        acc as int == conv_sum(
            img,
            mode,
            kern.weights(),
            kern.radius as int,
            kern.side_spec(),
            x as int,
            y as int,
            c as int,
            kern.weights().len() as int,
        ),
{
    let d: u32 = 2 * kern.radius + 1;
    let n: usize = kern.elems.len();
    let ghost w_seq = kern.weights();
    let ghost m = max_abs_sp::<S>();
    let ghost total = kern.abs_weight_sum();
    proof {
        S::lemma_range();
        lemma_abs_weight_prefix_mono(w_seq, 0, n as int);
        assert(n == d * d);
    }
    let mut acc: i64 = 0;
    let mut k: usize = 0;
    while k < n
        invariant
            k <= n,
            d == 2 * kern.radius + 1,
            n == kern.elems@.len(),
            n == d * d,
            w_seq == kern.weights(),
            m == max_abs_sp::<S>(),
            1 <= m,
            total == kern.abs_weight_sum(),
            total * m <= i64::MAX,
            kern.wf(),
            img.wf(),
            1 <= img.width,
            1 <= img.height,
            mode.radius_fits(img, kern.radius as int),
            padded.wf(),
            padded.width_spec() == img.width_spec() + 2 * kern.radius,
            padded.height_spec() == img.height_spec() + 2 * kern.radius,
            forall|u: int, v: int|
                padded.in_bounds(u, v) ==> #[trigger] padded.pix(u, v) == padded_pixel(
                    img,
                    mode,
                    kern.radius as int,
                    u,
                    v,
                ),
            x < img.width,
            y < img.height,
            c < Ps::n_spec(),
            acc as int == conv_sum(
                img,
                mode,
                w_seq,
                kern.radius as int,
                d as int,
                x as int,
                y as int,
                c as int,
                k as int,
            ),
            -(abs_weight_prefix(w_seq, k as int) * m) <= acc as int <= abs_weight_prefix(
                w_seq,
                k as int,
            ) * m,
        decreases n - k,
    {
        proof {
            vstd::arithmetic::div_mod::lemma_mod_division_less_than_divisor(k as int, d as int);
            vstd::arithmetic::div_mod::lemma_multiply_divide_lt(k as int, d as int, d as int);
        }
        let kx: u32 = (k % d as usize) as u32;
        let ky: u32 = (k / d as usize) as u32;
        let sample_pix: Ps = padded.get_pixel(x + kx, y + ky);
        let s_val: i64 = sample_pix.channel(c).to_i64();
        let wk: i64 = kern.elems[k].to_i64();
        let ghost wv = w_seq[k as int];
        let ghost aw = abs(wv);
        let ghost prefix_k = abs_weight_prefix(w_seq, k as int);
        proof {
            sample_pix.lemma_chan_len();
            sample_pix.chan()[c as int].lemma_in_range();
            assert(wk as int == wv);
            assert(s_val as int == padded_chan(
                img,
                mode,
                kern.radius as int,
                x + (k as int) % (d as int),
                y + (k as int) / (d as int),
                c as int,
            ));
            assert(-m <= s_val as int <= m);
            assert(abs_weight_prefix(w_seq, k + 1 as int) == prefix_k + aw);
            assert(-(aw * m) <= wv * (s_val as int) <= aw * m) by (nonlinear_arith)
                requires
                    -m <= s_val as int <= m && -aw <= wv <= aw && 0 <= aw && 0 <= m,
            ;
            assert((prefix_k + aw) * m == prefix_k * m + aw * m) by (nonlinear_arith);
            lemma_abs_weight_prefix_mono(w_seq, k + 1 as int, n as int);
            assert(abs_weight_prefix(w_seq, k + 1 as int) * m <= total * m) by (nonlinear_arith)
                requires
                    abs_weight_prefix(w_seq, k + 1 as int) <= total && 0 <= m,
            ;
            assert(conv_sum(
                img,
                mode,
                w_seq,
                kern.radius as int,
                d as int,
                x as int,
                y as int,
                c as int,
                k + 1 as int,
            ) == acc as int + wv * (s_val as int));
        }
        acc = acc + wk * s_val;
        k = k + 1;
    }
    acc
}

impl<T: Primitive> Kernel<T> {
    /// Convolve an image with the kernel, padding the image by the
    /// specified policy to handle boundary conditions.
    ///
    /// The convolution is performed in the `i64` working range; every
    /// output channel is [`conv_result`] of the corresponding window sum:
    /// the sum of the kernel weights times the padded samples, divided by
    /// the kernel's divisor, clamped into the source subpixel range and
    /// cast into the output subpixel type.
    ///
    /// The kernel's radius is also used as the padding radius, so the
    /// window of output cell `(x, y)` is centred on input pixel `(x, y)`.
    /// The overflow budget `abs_weight_sum() * max_abs_sp::<S>()` must fit
    /// the working range; callers with bounded kernels (such as the
    /// constructors in this module applied to ordinary images) satisfy
    /// this trivially.
    pub fn convolve<Ps, S, Po, O>(&self, img: &ImageBuffer2D<Ps>, padding: Padding) -> (out:
        ImageBuffer2D<Po>) where
        Ps: Pixel<Subpixel = S>,
        Po: Pixel<Subpixel = O>,
        S: Primitive,
        O: Primitive,

        requires
            self.wf(),
            img.wf(),
            1 <= img.width,
            1 <= img.height,
            padding.radius_fits(*img, self.radius as int),
            pad_dims_ok(*img, self.radius as int),
            Po::n_spec() == Ps::n_spec(),
            self.abs_weight_sum() * max_abs_sp::<S>() <= i64::MAX,
        ensures
            out.wf(),
            out.width_spec() == img.width_spec(),
            out.height_spec() == img.height_spec(),
            forall|x: int, y: int, c: int|
                img.in_bounds(x, y) && 0 <= c < Ps::n_spec() ==> (#[trigger] out.pix(
                    x,
                    y,
                ).chan()[c]).sp() == conv_result::<S, O>(
                    conv_sum(
                        *img,
                        padding,
                        self.weights(),
                        self.radius as int,
                        self.side_spec(),
                        x,
                        y,
                        c,
                        self.weights().len() as int,
                    ),
                    self.divisor as int,
                ),
    {
        let padded = padding.apply(img, self.radius);
        let nc: u32 = Ps::n_channels();
        proof {
            Ps::lemma_arity();
        }
        let w = img.width;
        let h = img.height;
        proof {
            assert(w * h <= (w + 2 * self.radius) * (h + 2 * self.radius)) by (nonlinear_arith)
                requires
                    0 <= w as int && 0 <= h as int && 0 <= self.radius as int,
            ;
        }
        let mut data: Vec<Po> = Vec::new();
        let mut y: u32 = 0;
        while y < h
            invariant
                y <= h,
                w == img.width,
                h == img.height,
                nc == Ps::n_spec(),
                nc == Po::n_spec(),
                self.wf(),
                img.wf(),
                1 <= img.width,
                1 <= img.height,
                padding.radius_fits(*img, self.radius as int),
                self.abs_weight_sum() * max_abs_sp::<S>() <= i64::MAX,
                padded.wf(),
                padded.width_spec() == img.width_spec() + 2 * self.radius,
                padded.height_spec() == img.height_spec() + 2 * self.radius,
                forall|u: int, v: int|
                    padded.in_bounds(u, v) ==> #[trigger] padded.pix(u, v) == padded_pixel(
                        *img,
                        padding,
                        self.radius as int,
                        u,
                        v,
                    ),
                data@.len() == y * w,
                forall|xx: u32, yy: u32, cc: int|
                    xx < w && yy < y && 0 <= cc < Ps::n_spec() ==> (#[trigger] data@[yy * w
                        + xx].chan()[cc]).sp() == conv_result::<S, O>(
                        conv_sum(
                            *img,
                            padding,
                            self.weights(),
                            self.radius as int,
                            self.side_spec(),
                            xx as int,
                            yy as int,
                            cc,
                            self.weights().len() as int,
                        ),
                        self.divisor as int,
                    ),
            decreases h - y,
        {
            let mut x: u32 = 0;
            while x < w
                invariant
                    x <= w,
                    y < h,
                    w == img.width,
                    h == img.height,
                    nc == Ps::n_spec(),
                    nc == Po::n_spec(),
                    self.wf(),
                    img.wf(),
                    1 <= img.width,
                    1 <= img.height,
                    padding.radius_fits(*img, self.radius as int),
                    self.abs_weight_sum() * max_abs_sp::<S>() <= i64::MAX,
                    padded.wf(),
                    padded.width_spec() == img.width_spec() + 2 * self.radius,
                    padded.height_spec() == img.height_spec() + 2 * self.radius,
                    forall|u: int, v: int|
                        padded.in_bounds(u, v) ==> #[trigger] padded.pix(u, v) == padded_pixel(
                            *img,
                            padding,
                            self.radius as int,
                            u,
                            v,
                        ),
                    data@.len() == y * w + x,
                    forall|xx: u32, yy: u32, cc: int|
                        xx < w && (yy < y || (yy == y && xx < x)) && 0 <= cc < Ps::n_spec() ==> (
                        #[trigger] data@[yy * w + xx].chan()[cc]).sp() == conv_result::<S, O>(
                            conv_sum(
                                *img,
                                padding,
                                self.weights(),
                                self.radius as int,
                                self.side_spec(),
                                xx as int,
                                yy as int,
                                cc,
                                self.weights().len() as int,
                            ),
                            self.divisor as int,
                        ),
                decreases w - x,
            {
                let mut buf: Vec<O> = Vec::new();
                let mut c: u32 = 0;
                while c < nc
                    invariant
                        c <= nc,
                        x < w,
                        y < h,
                        w == img.width,
                        h == img.height,
                        nc == Ps::n_spec(),
                        self.wf(),
                        img.wf(),
                        1 <= img.width,
                        1 <= img.height,
                        padding.radius_fits(*img, self.radius as int),
                        self.abs_weight_sum() * max_abs_sp::<S>() <= i64::MAX,
                        padded.wf(),
                        padded.width_spec() == img.width_spec() + 2 * self.radius,
                        padded.height_spec() == img.height_spec() + 2 * self.radius,
                        forall|u: int, v: int|
                            padded.in_bounds(u, v) ==> #[trigger] padded.pix(u, v) == padded_pixel(
                                *img,
                                padding,
                                self.radius as int,
                                u,
                                v,
                            ),
                        buf@.len() == c,
                        forall|cc: int|
                            0 <= cc < c ==> (#[trigger] buf@[cc]).sp() == conv_result::<S, O>(
                                conv_sum(
                                    *img,
                                    padding,
                                    self.weights(),
                                    self.radius as int,
                                    self.side_spec(),
                                    x as int,
                                    y as int,
                                    cc,
                                    self.weights().len() as int,
                                ),
                                self.divisor as int,
                            ),
                    decreases nc - c,
                {
                    let acc = conv_channel(
                        self,
                        &padded,
                        x,
                        y,
                        c as usize,
                        Ghost(*img),
                        Ghost(padding),
                    );
                    proof {
                        lemma_trunc_div_fits(acc as int, self.divisor as int);
                    }
                    let q = signed_div_64(acc, self.divisor);
                    let lo = S::min_value().to_i64();
                    let hi = S::max_value().to_i64();
                    proof {
                        S::lemma_range();
                    }
                    let clamped = if q < lo {
                        lo
                    } else if q > hi {
                        hi
                    } else {
                        q
                    };
                    let o = O::from_i64_cast(clamped);
                    buf.push(o);
                    c = c + 1;
                }
                let pix = Po::from_slice(buf.as_slice());
                proof {
                    pix.lemma_chan_len();
                    crate::image2d::lemma_row_major(w as int, h as int, x as int, y as int);
                }
                data.push(pix);
                proof {
                    assert forall|xx: u32, yy: u32, cc: int|
                        xx < w && (yy < y || (yy == y && xx < x + 1)) && 0 <= cc
                            < Ps::n_spec() implies (#[trigger] data@[yy * w + xx].chan()[cc]).sp()
                        == conv_result::<S, O>(
                        conv_sum(
                            *img,
                            padding,
                            self.weights(),
                            self.radius as int,
                            self.side_spec(),
                            xx as int,
                            yy as int,
                            cc,
                            self.weights().len() as int,
                        ),
                        self.divisor as int,
                    ) by {
                        if yy < y || (yy == y && xx < x) {
                            crate::image2d::lemma_grid_prefix(
                                w as int,
                                x as int,
                                y as int,
                                xx as int,
                                yy as int,
                            );
                        } else {
                            assert(data@[yy * w + xx] == pix);
                            assert(pix.chan()[cc] == buf@[cc]);
                        }
                    }
                }
                x = x + 1;
            }
            proof {
                assert((y + 1) * w == y * w + w) by (nonlinear_arith);
            }
            y = y + 1;
        }
        proof {
            assert(y * w == w * h) by (nonlinear_arith)
                requires
                    y == h,
            ;
        }
        let out = ImageBuffer2D { width: w, height: h, data };
        proof {
            assert forall|x: int, y: int, c: int|
                img.in_bounds(x, y) && 0 <= c < Ps::n_spec() implies (#[trigger] out.pix(
                x,
                y,
            ).chan()[c]).sp() == conv_result::<S, O>(
                conv_sum(
                    *img,
                    padding,
                    self.weights(),
                    self.radius as int,
                    self.side_spec(),
                    x,
                    y,
                    c,
                    self.weights().len() as int,
                ),
                self.divisor as int,
            ) by {
                let xu = x as u32;
                let yu = y as u32;
                assert((data@[yu * w + xu].chan()[c]).sp() == conv_result::<S, O>(
                    conv_sum(
                        *img,
                        padding,
                        self.weights(),
                        self.radius as int,
                        self.side_spec(),
                        xu as int,
                        yu as int,
                        c,
                        self.weights().len() as int,
                    ),
                    self.divisor as int,
                ));
            }
        }
        out
    }
}

/// The weights of the 3x3 Sobel kernel for the x derivative.
pub open spec fn sobel_x_weights() -> Seq<int> {
    seq![-1int, 0, 1, -2, 0, 2, -1, 0, 1]
}

/// The weights of the 3x3 Sobel kernel for the y derivative.
pub open spec fn sobel_y_weights() -> Seq<int> {
    seq![-1int, -2, -1, 0, 0, 0, 1, 2, 1]
}

impl<T: Primitive> Kernel<T> {
    /// Return a box kernel: every weight is one and the divisor is the
    /// window area, so the kernel computes the (truncating) mean of its
    /// window.
    pub fn box_(radius: u32) -> (r: Kernel<T>)
        requires
            (2 * radius + 1) * (2 * radius + 1) <= usize::MAX,
            (2 * radius + 1) * (2 * radius + 1) <= i64::MAX,
        ensures
            r.wf(),
            r.radius == radius,
            r.divisor as int == (2 * radius + 1) * (2 * radius + 1),
            r.weights().len() == (2 * radius + 1) * (2 * radius + 1),
            forall|i: int| 0 <= i < r.weights().len() ==> #[trigger] r.weights()[i] == 1,
    {
        let side: u64 = 2 * radius as u64 + 1;
        proof {
            assert(side as int * side as int == (2 * radius + 1) * (2 * radius + 1))
                by (nonlinear_arith)
                requires
                    side as int == 2 * (radius as int) + 1,
            ;
        }
        let n: u64 = side * side;
        let n: usize = n as usize;
        let mut elems: Vec<T> = Vec::new();
        let mut i: usize = 0;
        while i < n
            invariant
                i <= n,
                elems@.len() == i,
                forall|k: int| 0 <= k < i ==> (#[trigger] elems@[k]).sp() == 1,
            decreases n - i,
        {
            elems.push(T::one());
            i = i + 1;
        }
        proof {
            assert(1 <= side as int * side as int) by (nonlinear_arith)
                requires
                    1 <= side as int,
            ;
        }
        let divisor: i64 = n as i64;
        let r = Kernel { elems, radius, divisor };
        proof {
            assert(r.weights().len() == r.elems@.len());
            assert forall|i: int| 0 <= i < r.weights().len() implies #[trigger] r.weights()[i]
                == 1 by {
                assert(r.weights()[i] == r.elems@[i].sp());
            }
        }
        r
    }
}

impl Kernel<i64> {
    /// Return a 3x3 Sobel kernel to compute the x derivative in the
    /// positive direction.
    pub fn sobel_x_3x3() -> (r: Kernel<i64>)
        ensures
            r.wf(),
            r.radius == 1,
            r.divisor == 1,
            r.weights() == sobel_x_weights(),
    {
        let mut elems: Vec<i64> = Vec::new();
        elems.push(-1);
        elems.push(0);
        elems.push(1);
        elems.push(-2);
        elems.push(0);
        elems.push(2);
        elems.push(-1);
        elems.push(0);
        elems.push(1);
        let r = Kernel { elems, radius: 1, divisor: 1 };
        proof {
            assert(r.elems@.len() == 9);
            assert((2 * r.radius + 1) * (2 * r.radius + 1) == 9) by (nonlinear_arith)
                requires
                    r.radius == 1u32,
            ;
            assert(r.weights() =~= sobel_x_weights());
        }
        r
    }

    /// Return a 3x3 Sobel kernel to compute the y derivative in the
    /// positive direction.
    pub fn sobel_y_3x3() -> (r: Kernel<i64>)
        ensures
            r.wf(),
            r.radius == 1,
            r.divisor == 1,
            r.weights() == sobel_y_weights(),
    {
        let mut elems: Vec<i64> = Vec::new();
        elems.push(-1);
        elems.push(-2);
        elems.push(-1);
        elems.push(0);
        elems.push(0);
        elems.push(0);
        elems.push(1);
        elems.push(2);
        elems.push(1);
        let r = Kernel { elems, radius: 1, divisor: 1 };
        proof {
            assert(r.elems@.len() == 9);
            assert((2 * r.radius + 1) * (2 * r.radius + 1) == 9) by (nonlinear_arith)
                requires
                    r.radius == 1u32,
            ;
            assert(r.weights() =~= sobel_y_weights());
        }
        r
    }
}

/// Convolution identity law: the one-element kernel with weight one and
/// divisor one leaves every channel unchanged up to the cast round trip
/// into the output subpixel type; a channel value representable in the
/// output type comes back exactly.
pub proof fn lemma_convolve_identity<Ps, S, O>(
    img: ImageBuffer2D<Ps>,
    mode: Padding,
    x: int,
    y: int,
    c: int,
) where Ps: Pixel<Subpixel = S>, S: Primitive, O: Primitive
    requires
        img.wf(),
        img.in_bounds(x, y),
        0 <= c < Ps::n_spec(),
    ensures
        conv_result::<S, O>(conv_sum(img, mode, seq![1int], 0, 1, x, y, c, 1), 1) == cast_or_zero(
            img.pix(x, y).chan()[c].sp(),
            O::min_spec(),
            O::max_spec(),
        ),
        O::min_spec() <= img.pix(x, y).chan()[c].sp() <= O::max_spec() ==> conv_result::<S, O>(
            conv_sum(img, mode, seq![1int], 0, 1, x, y, c, 1),
            1,
        ) == img.pix(x, y).chan()[c].sp(),
{
    let k = img.pix(x, y).chan()[c].sp();
    reveal_with_fuel(conv_sum, 3);
    assert(0int % 1 == 0) by {
        vstd::arithmetic::div_mod::lemma_mod_division_less_than_divisor(0, 1);
    }
    assert(0int / 1 == 0) by {
        vstd::arithmetic::div_mod::lemma_div_pos_is_pos(0, 1);
        vstd::arithmetic::div_mod::lemma_div_nonincreasing(0, 1);
    }
    lemma_padded_pixel_interior(img, mode, 0, x, y);
    assert(conv_sum(img, mode, seq![1int], 0, 1, x, y, c, 1) == 1 * padded_chan(
        img,
        mode,
        0,
        x,
        y,
        c,
    ));
    assert(padded_chan(img, mode, 0, x, y, c) == k);
    assert(trunc_div(k, 1) == k) by {
        crate::traits::lemma_trunc_div_by_magnitudes(k, 1);
        vstd::arithmetic::div_mod::lemma_div_multiples_vanish(abs(k), 1);
        assert(1 * abs(k) == abs(k));
    }
    img.pix(x, y).lemma_chan_len();
    img.pix(x, y).chan()[c].lemma_in_range();
}

/// Away from zero padding, every padded sample of an image whose channel
/// `c` is constantly `k` is `k` again: the other three policies only ever
/// read source pixels.
pub proof fn lemma_padded_chan_constant<Ps, S>(
    img: ImageBuffer2D<Ps>,
    mode: Padding,
    radius: int,
    u: int,
    v: int,
    c: int,
    k: int,
) where Ps: Pixel<Subpixel = S>, S: Primitive
    requires
        img.wf(),
        1 <= img.width,
        1 <= img.height,
        mode != Padding::Zero,
        mode.radius_fits(img, radius),
        0 <= radius,
        0 <= u < img.width + 2 * radius,
        0 <= v < img.height + 2 * radius,
        0 <= c < Ps::n_spec(),
        forall|xx: int, yy: int|
            img.in_bounds(xx, yy) ==> (#[trigger] img.pix(xx, yy)).chan()[c].sp() == k,
    ensures
        padded_chan(img, mode, radius, u, v, c) == k,
{
    let s = u - radius;
    let t = v - radius;
    let w = img.width_spec();
    let h = img.height_spec();
    match mode {
        Padding::Zero => {},
        Padding::Replicate => {
            assert(img.in_bounds(crate::padding::clamp_idx(s, w), crate::padding::clamp_idx(t, h)));
        },
        Padding::Wrap => {
            vstd::arithmetic::div_mod::lemma_mod_division_less_than_divisor(s, w);
            vstd::arithmetic::div_mod::lemma_mod_division_less_than_divisor(t, h);
            assert(img.in_bounds(crate::padding::wrap_idx(s, w), crate::padding::wrap_idx(t, h)));
        },
        Padding::Mirror => {
            assert(img.in_bounds(
                crate::padding::mirror_idx(s, w),
                crate::padding::mirror_idx(t, h),
            ));
        },
    }
}

/// With every window sample equal to `k`, the convolution sum over the
/// first `m` kernel positions is the weight sum times `k`.
pub proof fn lemma_conv_sum_constant<Ps, S>(
    img: ImageBuffer2D<Ps>,
    mode: Padding,
    ws: Seq<int>,
    radius: int,
    d: int,
    x: int,
    y: int,
    c: int,
    m: int,
    k: int,
) where Ps: Pixel<Subpixel = S>, S: Primitive
    requires
        1 <= d,
        0 <= m <= ws.len(),
        m <= d * d,
        forall|u: int, v: int|
            x <= u < x + d && y <= v < y + d ==> #[trigger] padded_chan(img, mode, radius, u, v, c)
                == k,
    ensures
        conv_sum(img, mode, ws, radius, d, x, y, c, m) == weight_prefix(ws, m) * k,
    decreases m,
{
    if m <= 0 {
        assert(weight_prefix(ws, m) * k == 0) by (nonlinear_arith)
            requires
                weight_prefix(ws, m) == 0,
        ;
    } else {
        lemma_conv_sum_constant::<Ps, S>(img, mode, ws, radius, d, x, y, c, m - 1, k);
        vstd::arithmetic::div_mod::lemma_mod_division_less_than_divisor(m - 1, d);
        vstd::arithmetic::div_mod::lemma_div_pos_is_pos(m - 1, d);
        vstd::arithmetic::div_mod::lemma_multiply_divide_lt(m - 1, d, d);
        let u = x + (m - 1) % d;
        let v = y + (m - 1) / d;
        assert(padded_chan(img, mode, radius, u, v, c) == k);
        assert((weight_prefix(ws, m - 1) + ws[m - 1]) * k == weight_prefix(ws, m - 1) * k + ws[m
            - 1] * k) by (nonlinear_arith);
    }
}

/// All-one weights sum to their count.
pub proof fn lemma_unit_weight_prefix(ws: Seq<int>, m: int)
    requires
        0 <= m <= ws.len(),
        forall|i: int| 0 <= i < ws.len() ==> #[trigger] ws[i] == 1,
    ensures
        weight_prefix(ws, m) == m,
    decreases m,
{
    if m > 0 {
        lemma_unit_weight_prefix(ws, m - 1);
    }
}

/// Multiplying by `n` and truncating-dividing by `n` round-trips exactly.
pub proof fn lemma_trunc_div_exact(k: int, n: int)
    requires
        1 <= n,
    ensures
        trunc_div(n * k, n) == k,
{
    crate::traits::lemma_trunc_div_by_magnitudes(n * k, n);
    assert(abs(n * k) == n * abs(k) && ((n * k >= 0) <==> (k >= 0)) && (n * k == 0 <==> k == 0))
        by (nonlinear_arith)
        requires
            1 <= n,
    ;
    vstd::arithmetic::div_mod::lemma_div_multiples_vanish(abs(k), n);
}

/// Box-kernel mean preservation: on an image whose channel `c` holds the
/// constant `k` everywhere, the box kernel of any radius under a border
/// policy other than zero padding returns exactly `k` on that channel
/// (the normalising division is exact), provided `k` is representable in
/// the output subpixel type.
pub proof fn lemma_convolve_box_constant<Ps, S, O>(
    img: ImageBuffer2D<Ps>,
    mode: Padding,
    ws: Seq<int>,
    radius: int,
    x: int,
    y: int,
    c: int,
    k: int,
) where Ps: Pixel<Subpixel = S>, S: Primitive, O: Primitive
    requires
        img.wf(),
        img.in_bounds(x, y),
        0 <= c < Ps::n_spec(),
        mode != Padding::Zero,
        mode.radius_fits(img, radius),
        0 <= radius,
        ws.len() == (2 * radius + 1) * (2 * radius + 1),
        forall|i: int| 0 <= i < ws.len() ==> #[trigger] ws[i] == 1,
        forall|xx: int, yy: int|
            img.in_bounds(xx, yy) ==> (#[trigger] img.pix(xx, yy)).chan()[c].sp() == k,
        O::min_spec() <= k <= O::max_spec(),
    ensures
        conv_result::<S, O>(
            conv_sum(img, mode, ws, radius, 2 * radius + 1, x, y, c, ws.len() as int),
            (2 * radius + 1) * (2 * radius + 1),
        ) == k,
{
    let d = 2 * radius + 1;
    let n = ws.len() as int;
    assert forall|u: int, v: int| x <= u < x + d && y <= v < y + d implies padded_chan(
        img,
        mode,
        radius,
        u,
        v,
        c,
    ) == k by {
        lemma_padded_chan_constant::<Ps, S>(img, mode, radius, u, v, c, k);
    }
    lemma_conv_sum_constant::<Ps, S>(img, mode, ws, radius, d, x, y, c, n, k);
    lemma_unit_weight_prefix(ws, n);
    assert(d * d >= 1) by (nonlinear_arith)
        requires
            d >= 1,
    ;
    lemma_trunc_div_exact(k, d * d);
    assert(conv_sum(img, mode, ws, radius, d, x, y, c, n) == (d * d) * k);
    img.pix(x, y).lemma_chan_len();
    img.pix(x, y).chan()[c].lemma_in_range();
}

/// A zero-sum kernel (such as the Sobel derivative kernels) maps every
/// image whose channel `c` is constant to the all-zero response on that
/// channel, under any border policy other than zero padding.
pub proof fn lemma_convolve_zero_sum_constant<Ps, S, O>(
    img: ImageBuffer2D<Ps>,
    mode: Padding,
    ws: Seq<int>,
    radius: int,
    divisor: int,
    x: int,
    y: int,
    c: int,
    k: int,
) where Ps: Pixel<Subpixel = S>, S: Primitive, O: Primitive
    requires
        img.wf(),
        img.in_bounds(x, y),
        0 <= c < Ps::n_spec(),
        mode != Padding::Zero,
        mode.radius_fits(img, radius),
        0 <= radius,
        ws.len() == (2 * radius + 1) * (2 * radius + 1),
        weight_prefix(ws, ws.len() as int) == 0,
        1 <= divisor,
        forall|xx: int, yy: int|
            img.in_bounds(xx, yy) ==> (#[trigger] img.pix(xx, yy)).chan()[c].sp() == k,
    ensures
        conv_result::<S, O>(
            conv_sum(img, mode, ws, radius, 2 * radius + 1, x, y, c, ws.len() as int),
            divisor,
        ) == 0,
{
    let d = 2 * radius + 1;
    let n = ws.len() as int;
    assert forall|u: int, v: int| x <= u < x + d && y <= v < y + d implies padded_chan(
        img,
        mode,
        radius,
        u,
        v,
        c,
    ) == k by {
        lemma_padded_chan_constant::<Ps, S>(img, mode, radius, u, v, c, k);
    }
    assert(n <= d * d) by (nonlinear_arith)
        requires
            n == d * d,
    ;
    lemma_conv_sum_constant::<Ps, S>(img, mode, ws, radius, d, x, y, c, n, k);
    assert(weight_prefix(ws, n) * k == 0) by (nonlinear_arith)
        requires
            weight_prefix(ws, n) == 0,
    ;
    assert(trunc_div(0, divisor) == 0) by {
        vstd::arithmetic::div_mod::lemma_div_pos_is_pos(0, divisor);
        vstd::arithmetic::div_mod::lemma_div_nonincreasing(0, divisor);
    }
    S::lemma_range();
    O::lemma_range();
}

/// The Sobel kernels' weights sum to zero.
pub proof fn lemma_sobel_weights_zero_sum()
    ensures
        weight_prefix(sobel_x_weights(), 9) == 0,
        weight_prefix(sobel_y_weights(), 9) == 0,
{
    reveal_with_fuel(weight_prefix, 10);
}

} // verus!
