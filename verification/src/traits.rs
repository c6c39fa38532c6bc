//! The numeric and pixel abstractions the library is built on.
//!
//! [`Primitive`] is the closed set of subpixel (channel) types: bounded
//! integers whose value is mirrored by the spec function [`Primitive::sp`].
//! Casting between subpixel types is centralised in
//! [`Primitive::from_i64_cast`], whose behaviour is the spec function
//! [`cast_or_zero`]: an out-of-range value degrades to zero, never to a
//! panic.

use vstd::prelude::*;

verus! {

/// Rust's truncating integer division (rounds toward zero), as a
/// mathematical function. Unspecified for `b == 0`.
pub open spec fn trunc_div(a: int, b: int) -> int {
    if a >= 0 {
        if b >= 0 {
            a / b
        } else {
            -(a / -b)
        }
    } else {
        if b >= 0 {
            -(-a / b)
        } else {
            -a / -b
        }
    }
}

/// Rust's remainder (the sign follows the dividend), as a mathematical
/// function. Unspecified for `b == 0`.
pub open spec fn trunc_rem(a: int, b: int) -> int {
    a - b * trunc_div(a, b)
}

/// The cast-with-zero-fallback policy shared by every numeric conversion in
/// the library: a value inside `[lo, hi]` is kept, anything else degrades to
/// zero.
pub open spec fn cast_or_zero(v: int, lo: int, hi: int) -> int {
    if lo <= v <= hi {
        v
    } else {
        0
    }
}

/// Clamp `v` into the inclusive interval `[lo, hi]`.
pub open spec fn clamp_int(v: int, lo: int, hi: int) -> int {
    if v < lo {
        lo
    } else if v > hi {
        hi
    } else {
        v
    }
}

/// Implemented for primitive subpixel (channel) types.
///
/// A `Primitive` is a bounded integer type. Its mathematical value is given
/// by [`Primitive::sp`]; every operation below is specified against that
/// value. All supported types fit inside `i64`, which is the working range
/// of the convolution engine.
pub trait Primitive: Copy + Sized {
    /// The mathematical value held by `self`.
    spec fn sp(self) -> int;

    /// The smallest representable value.
    spec fn min_spec() -> int;

    /// The largest representable value.
    spec fn max_spec() -> int;

    /// Every value lies between the type's bounds.
    proof fn lemma_in_range(self)
        ensures
            Self::min_spec() <= self.sp() <= Self::max_spec(),
    ;

    /// The bounds surround zero and fit inside `i64`.
    proof fn lemma_range()
        ensures
            Self::min_spec() <= 0,
            1 <= Self::max_spec(),
            i64::MIN <= Self::min_spec(),
            Self::max_spec() <= i64::MAX,
    ;

    /// The mathematical value determines the bit pattern.
    proof fn lemma_sp_injective(a: Self, b: Self)
        requires
            a.sp() == b.sp(),
        ensures
            a == b,
    ;

    /// The zero value, as a spec-level constant.
    spec fn zero_sp() -> Self;

    /// The spec-level zero really holds the value zero.
    proof fn lemma_zero_sp()
        ensures
            Self::zero_sp().sp() == 0,
    ;

    /// The zero value.
    fn zero() -> (r: Self)
        ensures
            r.sp() == 0,
            r == Self::zero_sp(),
    ;

    /// The one value.
    fn one() -> (r: Self)
        ensures
            r.sp() == 1,
    ;

    /// The smallest value.
    fn min_value() -> (r: Self)
        ensures
            r.sp() == Self::min_spec(),
    ;

    /// The largest value.
    fn max_value() -> (r: Self)
        ensures
            r.sp() == Self::max_spec(),
    ;

    /// Checked addition: the exact sum must be representable.
    fn add_v(self, o: Self) -> (r: Self)
        requires
            Self::min_spec() <= self.sp() + o.sp() <= Self::max_spec(),
        ensures
            r.sp() == self.sp() + o.sp(),
    ;

    /// Checked subtraction: the exact difference must be representable.
    fn sub_v(self, o: Self) -> (r: Self)
        requires
            Self::min_spec() <= self.sp() - o.sp() <= Self::max_spec(),
        ensures
            r.sp() == self.sp() - o.sp(),
    ;

    /// Checked multiplication: the exact product must be representable.
    fn mul_v(self, o: Self) -> (r: Self)
        requires
            Self::min_spec() <= self.sp() * o.sp() <= Self::max_spec(),
        ensures
            r.sp() == self.sp() * o.sp(),
    ;

    /// Truncating division; division by zero and the one overflowing
    /// quotient are precondition violations.
    fn div_v(self, o: Self) -> (r: Self)
        requires
            o.sp() != 0,
            Self::min_spec() <= trunc_div(self.sp(), o.sp()) <= Self::max_spec(),
        ensures
            r.sp() == trunc_div(self.sp(), o.sp()),
    ;

    /// Remainder matching [`trunc_rem`]; same preconditions as division.
    fn rem_v(self, o: Self) -> (r: Self)
        requires
            o.sp() != 0,
            Self::min_spec() <= trunc_div(self.sp(), o.sp()) <= Self::max_spec(),
        ensures
            r.sp() == trunc_rem(self.sp(), o.sp()),
    ;

    /// The absolute value; the one unrepresentable case (the minimum of a
    /// two's-complement type) is a precondition violation.
    fn abs_v(self) -> (r: Self)
        requires
            -Self::max_spec() <= self.sp(),
        ensures
            r.sp() == abs(self.sp()),
    ;

    /// Value comparison.
    fn lt_v(self, o: Self) -> (r: bool)
        ensures
            r == (self.sp() < o.sp()),
    ;

    /// Value equality.
    fn eq_v(self, o: Self) -> (r: bool)
        ensures
            r == (self.sp() == o.sp()),
    ;

    /// Widen into the convolution working type `i64`; always exact.
    fn to_i64(self) -> (r: i64)
        ensures
            r as int == self.sp(),
    ;

    /// Narrow from the working type, degrading to zero when out of range
    /// (see [`cast_or_zero`]); this is the library's single casting
    /// primitive and it never fails.
    fn from_i64_cast(v: i64) -> (r: Self)
        ensures
            r.sp() == cast_or_zero(v as int, Self::min_spec(), Self::max_spec()),
    ;
}

impl Primitive for u8 {
    open spec fn sp(self) -> int {
        self as int
    }

    open spec fn min_spec() -> int {
        0
    }

    open spec fn max_spec() -> int {
        u8::MAX as int
    }

    open spec fn zero_sp() -> Self {
        0
    }

    proof fn lemma_zero_sp() {
    }

    proof fn lemma_in_range(self) {
    }

    proof fn lemma_range() {
    }

    proof fn lemma_sp_injective(a: Self, b: Self) {
    }

    fn zero() -> (r: Self) {
        0
    }

    fn one() -> (r: Self) {
        1
    }

    fn min_value() -> (r: Self) {
        u8::MIN
    }

    fn max_value() -> (r: Self) {
        u8::MAX
    }

    fn add_v(self, o: Self) -> (r: Self) {
        self + o
    }

    fn sub_v(self, o: Self) -> (r: Self) {
        self - o
    }

    fn mul_v(self, o: Self) -> (r: Self) {
        self * o
    }

    fn div_v(self, o: Self) -> (r: Self) {
        self / o
    }

    fn rem_v(self, o: Self) -> (r: Self) {
        proof {
            vstd::arithmetic::div_mod::lemma_fundamental_div_mod(self as int, o as int);
        }
        self % o
    }

    fn abs_v(self) -> (r: Self) {
        self
    }

    fn lt_v(self, o: Self) -> (r: bool) {
        self < o
    }

    fn eq_v(self, o: Self) -> (r: bool) {
        self == o
    }

    fn to_i64(self) -> (r: i64) {
        self as i64
    }

    fn from_i64_cast(v: i64) -> (r: Self) {
        if 0 <= v && v <= u8::MAX as i64 {
            v as u8
        } else {
            0
        }
    }
}

impl Primitive for i32 {
    open spec fn sp(self) -> int {
        self as int
    }

    open spec fn min_spec() -> int {
        i32::MIN as int
    }

    open spec fn max_spec() -> int {
        i32::MAX as int
    }

    open spec fn zero_sp() -> Self {
        0
    }

    proof fn lemma_zero_sp() {
    }

    proof fn lemma_in_range(self) {
    }

    proof fn lemma_range() {
    }

    proof fn lemma_sp_injective(a: Self, b: Self) {
    }

    fn zero() -> (r: Self) {
        0
    }

    fn one() -> (r: Self) {
        1
    }

    fn min_value() -> (r: Self) {
        i32::MIN
    }

    fn max_value() -> (r: Self) {
        i32::MAX
    }

    fn add_v(self, o: Self) -> (r: Self) {
        self + o
    }

    fn sub_v(self, o: Self) -> (r: Self) {
        self - o
    }

    fn mul_v(self, o: Self) -> (r: Self) {
        self * o
    }

    fn div_v(self, o: Self) -> (r: Self) {
        proof {
            lemma_trunc_div_by_magnitudes(self as int, o as int);
        }
        let q = signed_div_64(self as i64, o as i64);
        q as i32
    }

    fn rem_v(self, o: Self) -> (r: Self) {
        proof {
            lemma_trunc_div_by_magnitudes(self as int, o as int);
            lemma_trunc_rem_in_range(self as int, o as int);
        }
        let m = signed_rem_64(self as i64, o as i64);
        m as i32
    }

    fn abs_v(self) -> (r: Self) {
        if self < 0 {
            -self
        } else {
            self
        }
    }

    fn lt_v(self, o: Self) -> (r: bool) {
        self < o
    }

    fn eq_v(self, o: Self) -> (r: bool) {
        self == o
    }

    fn to_i64(self) -> (r: i64) {
        self as i64
    }

    fn from_i64_cast(v: i64) -> (r: Self) {
        if i32::MIN as i64 <= v && v <= i32::MAX as i64 {
            v as i32
        } else {
            0
        }
    }
}

/// `trunc_div` in terms of the magnitudes of its operands: the quotient of
/// the absolute values, negated when the signs differ.
pub proof fn lemma_trunc_div_by_magnitudes(a: int, b: int)
    requires
        b != 0,
    ensures
        trunc_div(a, b) == if (a >= 0) == (b >= 0) {
            abs(a) / abs(b)
        } else {
            -(abs(a) / abs(b))
        },
{
}

/// The remainder has magnitude below the divisor's and the sign of the
/// dividend, so it lies between `-abs(a)` and `abs(a)` as well.
pub proof fn lemma_trunc_rem_in_range(a: int, b: int)
    requires
        b != 0,
    ensures
        trunc_rem(a, b) == if a >= 0 {
            abs(a) % abs(b)
        } else {
            -(abs(a) % abs(b))
        },
        0 <= abs(a) % abs(b) < abs(b),
{
    vstd::arithmetic::div_mod::lemma_fundamental_div_mod(abs(a), abs(b));
    vstd::arithmetic::div_mod::lemma_mod_bound(abs(a), abs(b));
    assert(trunc_rem(a, b) == a - b * trunc_div(a, b));
    lemma_trunc_div_by_magnitudes(a, b);
    let q = abs(a) / abs(b);
    let m = abs(a) % abs(b);
    if a >= 0 && b >= 0 {
        assert(a - b * q == m) by (nonlinear_arith)
            requires
                a == abs(a) && b == abs(b) && abs(a) == abs(b) * q + m,
        ;
    } else if a >= 0 {
        assert(a - b * -q == m) by (nonlinear_arith)
            requires
                a == abs(a) && b == -abs(b) && abs(a) == abs(b) * q + m,
        ;
    } else if b >= 0 {
        assert(a - b * -q == -m) by (nonlinear_arith)
            requires
                a == -abs(a) && b == abs(b) && abs(a) == abs(b) * q + m,
        ;
    } else {
        assert(a - b * q == -m) by (nonlinear_arith)
            requires
                a == -abs(a) && b == -abs(b) && abs(a) == abs(b) * q + m,
        ;
    }
}

/// The absolute value of a mathematical integer.
pub open spec fn abs(a: int) -> int {
    if a >= 0 {
        a
    } else {
        -a
    }
}

/// Truncating division on `i64` through unsigned magnitudes, so that the
/// result provably matches [`trunc_div`].
pub(crate) fn signed_div_64(a: i64, b: i64) -> (q: i64)
    requires
        b != 0,
        i64::MIN <= trunc_div(a as int, b as int) <= i64::MAX,
    ensures
        q as int == trunc_div(a as int, b as int),
{
    proof {
        lemma_trunc_div_by_magnitudes(a as int, b as int);
        vstd::arithmetic::div_mod::lemma_div_nonincreasing(abs(a as int), abs(b as int));
        vstd::arithmetic::div_mod::lemma_div_pos_is_pos(abs(a as int), abs(b as int));
    }
    let ua: u64 = if a < 0 {
        (-(a as i128)) as u64
    } else {
        a as u64
    };
    let ub: u64 = if b < 0 {
        (-(b as i128)) as u64
    } else {
        b as u64
    };
    let uq: u64 = ua / ub;
    if (a < 0) != (b < 0) {
        if uq >= 0x8000_0000_0000_0000u64 {
            i64::MIN
        } else {
            -(uq as i64)
        }
    } else {
        uq as i64
    }
}

/// Remainder on `i64` matching [`trunc_rem`]: computed from the magnitudes,
/// with the dividend's sign.
pub(crate) fn signed_rem_64(a: i64, b: i64) -> (m: i64)
    requires
        b != 0,
        i64::MIN <= trunc_div(a as int, b as int) <= i64::MAX,
    ensures
        m as int == trunc_rem(a as int, b as int),
{
    proof {
        lemma_trunc_rem_in_range(a as int, b as int);
    }
    let ua: u64 = if a < 0 {
        (-(a as i128)) as u64
    } else {
        a as u64
    };
    let ub: u64 = if b < 0 {
        (-(b as i128)) as u64
    } else {
        b as u64
    };
    let um: u64 = ua % ub;
    if a < 0 {
        -(um as i64)
    } else {
        um as i64
    }
}


impl Primitive for u16 {
    open spec fn sp(self) -> int {
        self as int
    }

    open spec fn min_spec() -> int {
        0
    }

    open spec fn max_spec() -> int {
        u16::MAX as int
    }

    open spec fn zero_sp() -> Self {
        0
    }

    proof fn lemma_zero_sp() {
    }

    proof fn lemma_in_range(self) {
    }

    proof fn lemma_range() {
    }

    proof fn lemma_sp_injective(a: Self, b: Self) {
    }

    fn zero() -> (r: Self) {
        0
    }

    fn one() -> (r: Self) {
        1
    }

    fn min_value() -> (r: Self) {
        u16::MIN
    }

    fn max_value() -> (r: Self) {
        u16::MAX
    }

    fn add_v(self, o: Self) -> (r: Self) {
        self + o
    }

    fn sub_v(self, o: Self) -> (r: Self) {
        self - o
    }

    fn mul_v(self, o: Self) -> (r: Self) {
        self * o
    }

    fn div_v(self, o: Self) -> (r: Self) {
        self / o
    }

    fn rem_v(self, o: Self) -> (r: Self) {
        proof {
            vstd::arithmetic::div_mod::lemma_fundamental_div_mod(self as int, o as int);
        }
        self % o
    }

    fn abs_v(self) -> (r: Self) {
        self
    }

    fn lt_v(self, o: Self) -> (r: bool) {
        self < o
    }

    fn eq_v(self, o: Self) -> (r: bool) {
        self == o
    }

    fn to_i64(self) -> (r: i64) {
        self as i64
    }

    fn from_i64_cast(v: i64) -> (r: Self) {
        if 0 <= v && v <= u16::MAX as i64 {
            v as u16
        } else {
            0
        }
    }
}

impl Primitive for u32 {
    open spec fn sp(self) -> int {
        self as int
    }

    open spec fn min_spec() -> int {
        0
    }

    open spec fn max_spec() -> int {
        u32::MAX as int
    }

    open spec fn zero_sp() -> Self {
        0
    }

    proof fn lemma_zero_sp() {
    }

    proof fn lemma_in_range(self) {
    }

    proof fn lemma_range() {
    }

    proof fn lemma_sp_injective(a: Self, b: Self) {
    }

    fn zero() -> (r: Self) {
        0
    }

    fn one() -> (r: Self) {
        1
    }

    fn min_value() -> (r: Self) {
        u32::MIN
    }

    fn max_value() -> (r: Self) {
        u32::MAX
    }

    fn add_v(self, o: Self) -> (r: Self) {
        self + o
    }

    fn sub_v(self, o: Self) -> (r: Self) {
        self - o
    }

    fn mul_v(self, o: Self) -> (r: Self) {
        self * o
    }

    fn div_v(self, o: Self) -> (r: Self) {
        self / o
    }

    fn rem_v(self, o: Self) -> (r: Self) {
        proof {
            vstd::arithmetic::div_mod::lemma_fundamental_div_mod(self as int, o as int);
        }
        self % o
    }

    fn abs_v(self) -> (r: Self) {
        self
    }

    fn lt_v(self, o: Self) -> (r: bool) {
        self < o
    }

    fn eq_v(self, o: Self) -> (r: bool) {
        self == o
    }

    fn to_i64(self) -> (r: i64) {
        self as i64
    }

    fn from_i64_cast(v: i64) -> (r: Self) {
        if 0 <= v && v <= u32::MAX as i64 {
            v as u32
        } else {
            0
        }
    }
}

impl Primitive for i8 {
    open spec fn sp(self) -> int {
        self as int
    }

    open spec fn min_spec() -> int {
        i8::MIN as int
    }

    open spec fn max_spec() -> int {
        i8::MAX as int
    }

    open spec fn zero_sp() -> Self {
        0
    }

    proof fn lemma_zero_sp() {
    }

    proof fn lemma_in_range(self) {
    }

    proof fn lemma_range() {
    }

    proof fn lemma_sp_injective(a: Self, b: Self) {
    }

    fn zero() -> (r: Self) {
        0
    }

    fn one() -> (r: Self) {
        1
    }

    fn min_value() -> (r: Self) {
        i8::MIN
    }

    fn max_value() -> (r: Self) {
        i8::MAX
    }

    fn add_v(self, o: Self) -> (r: Self) {
        self + o
    }

    fn sub_v(self, o: Self) -> (r: Self) {
        self - o
    }

    fn mul_v(self, o: Self) -> (r: Self) {
        self * o
    }

    fn div_v(self, o: Self) -> (r: Self) {
        proof {
            lemma_trunc_div_by_magnitudes(self as int, o as int);
        }
        let q = signed_div_64(self as i64, o as i64);
        q as i8
    }

    fn rem_v(self, o: Self) -> (r: Self) {
        proof {
            lemma_trunc_div_by_magnitudes(self as int, o as int);
            lemma_trunc_rem_in_range(self as int, o as int);
        }
        let m = signed_rem_64(self as i64, o as i64);
        m as i8
    }

    fn abs_v(self) -> (r: Self) {
        if self < 0 {
            -self
        } else {
            self
        }
    }

    fn lt_v(self, o: Self) -> (r: bool) {
        self < o
    }

    fn eq_v(self, o: Self) -> (r: bool) {
        self == o
    }

    fn to_i64(self) -> (r: i64) {
        self as i64
    }

    fn from_i64_cast(v: i64) -> (r: Self) {
        if i8::MIN as i64 <= v && v <= i8::MAX as i64 {
            v as i8
        } else {
            0
        }
    }
}

impl Primitive for i16 {
    open spec fn sp(self) -> int {
        self as int
    }

    open spec fn min_spec() -> int {
        i16::MIN as int
    }

    open spec fn max_spec() -> int {
        i16::MAX as int
    }

    open spec fn zero_sp() -> Self {
        0
    }

    proof fn lemma_zero_sp() {
    }

    proof fn lemma_in_range(self) {
    }

    proof fn lemma_range() {
    }

    proof fn lemma_sp_injective(a: Self, b: Self) {
    }

    fn zero() -> (r: Self) {
        0
    }

    fn one() -> (r: Self) {
        1
    }

    fn min_value() -> (r: Self) {
        i16::MIN
    }

    fn max_value() -> (r: Self) {
        i16::MAX
    }

    fn add_v(self, o: Self) -> (r: Self) {
        self + o
    }

    fn sub_v(self, o: Self) -> (r: Self) {
        self - o
    }

    fn mul_v(self, o: Self) -> (r: Self) {
        self * o
    }

    fn div_v(self, o: Self) -> (r: Self) {
        proof {
            lemma_trunc_div_by_magnitudes(self as int, o as int);
        }
        let q = signed_div_64(self as i64, o as i64);
        q as i16
    }

    fn rem_v(self, o: Self) -> (r: Self) {
        proof {
            lemma_trunc_div_by_magnitudes(self as int, o as int);
            lemma_trunc_rem_in_range(self as int, o as int);
        }
        let m = signed_rem_64(self as i64, o as i64);
        m as i16
    }

    fn abs_v(self) -> (r: Self) {
        if self < 0 {
            -self
        } else {
            self
        }
    }

    fn lt_v(self, o: Self) -> (r: bool) {
        self < o
    }

    fn eq_v(self, o: Self) -> (r: bool) {
        self == o
    }

    fn to_i64(self) -> (r: i64) {
        self as i64
    }

    fn from_i64_cast(v: i64) -> (r: Self) {
        if i16::MIN as i64 <= v && v <= i16::MAX as i64 {
            v as i16
        } else {
            0
        }
    }
}

impl Primitive for i64 {
    open spec fn sp(self) -> int {
        self as int
    }

    open spec fn min_spec() -> int {
        i64::MIN as int
    }

    open spec fn max_spec() -> int {
        i64::MAX as int
    }

    open spec fn zero_sp() -> Self {
        0
    }

    proof fn lemma_zero_sp() {
    }

    proof fn lemma_in_range(self) {
    }

    proof fn lemma_range() {
    }

    proof fn lemma_sp_injective(a: Self, b: Self) {
    }

    fn zero() -> (r: Self) {
        0
    }

    fn one() -> (r: Self) {
        1
    }

    fn min_value() -> (r: Self) {
        i64::MIN
    }

    fn max_value() -> (r: Self) {
        i64::MAX
    }

    fn add_v(self, o: Self) -> (r: Self) {
        self + o
    }

    fn sub_v(self, o: Self) -> (r: Self) {
        self - o
    }

    fn mul_v(self, o: Self) -> (r: Self) {
        self * o
    }

    fn div_v(self, o: Self) -> (r: Self) {
        proof {
            lemma_trunc_div_by_magnitudes(self as int, o as int);
        }
        let q = signed_div_64(self as i64, o as i64);
        q as i64
    }

    fn rem_v(self, o: Self) -> (r: Self) {
        proof {
            lemma_trunc_div_by_magnitudes(self as int, o as int);
            lemma_trunc_rem_in_range(self as int, o as int);
        }
        let m = signed_rem_64(self as i64, o as i64);
        m as i64
    }

    fn abs_v(self) -> (r: Self) {
        if self < 0 {
            -self
        } else {
            self
        }
    }

    fn lt_v(self, o: Self) -> (r: bool) {
        self < o
    }

    fn eq_v(self, o: Self) -> (r: bool) {
        self == o
    }

    fn to_i64(self) -> (r: i64) {
        self as i64
    }

    fn from_i64_cast(v: i64) -> (r: Self) {
        if i64::MIN as i64 <= v && v <= i64::MAX as i64 {
            v as i64
        } else {
            0
        }
    }
}

/// The sum of the first `k` channel values of `s`, as a mathematical
/// integer.
pub open spec fn sp_prefix_sum<S: Primitive>(s: Seq<S>, k: int) -> int
    decreases k,
{
    if k <= 0 {
        0
    } else {
        sp_prefix_sum(s, k - 1) + s[k - 1].sp()
    }
}

/// This trait must be implemented for the types you want to store in an
/// image.
///
/// A pixel is a short, fixed-length tuple of channels sharing one
/// [`Primitive`] subpixel type; its mathematical content is the channel
/// sequence [`Pixel::chan`]. The arity is fixed per type and never varies
/// at runtime.
pub trait Pixel: Copy + Sized {
    /// Type of an individual pixel component.
    type Subpixel: Primitive;

    /// The channels of the pixel, as a sequence.
    spec fn chan(self) -> Seq<Self::Subpixel>;

    /// The number of channels of the pixel type.
    spec fn n_spec() -> nat;

    /// The all-zero pixel.
    spec fn zero_spec() -> Self;

    /// The arity of the pixel type is between one and four.
    proof fn lemma_arity()
        ensures
            1 <= Self::n_spec() <= 4,
    ;

    /// Every pixel holds exactly `n_spec()` channels, and the arity is
    /// between one and four.
    proof fn lemma_chan_len(self)
        ensures
            self.chan().len() == Self::n_spec(),
            1 <= Self::n_spec() <= 4,
    ;

    /// The channel sequence determines the pixel.
    proof fn lemma_chan_injective(a: Self, b: Self)
        requires
            a.chan() == b.chan(),
        ensures
            a == b,
    ;

    /// All channels of the zero pixel hold the value zero.
    proof fn lemma_zero_spec()
        ensures
            forall|i: int|
                0 <= i < Self::n_spec() ==> #[trigger] Self::zero_spec().chan()[i].sp() == 0,
    ;

    /// Number of channels contained in the pixel type.
    fn n_channels() -> (n: u32)
        ensures
            n == Self::n_spec(),
    ;

    /// Return a slice containing the different channels of the pixel.
    fn channels(&self) -> (s: &[Self::Subpixel])
        ensures
            s@ == self.chan(),
    ;

    /// Create a new pixel from the first `n_spec()` elements of a slice;
    /// a shorter slice is a precondition violation.
    fn from_slice(s: &[Self::Subpixel]) -> (r: Self)
        requires
            s@.len() >= Self::n_spec(),
        ensures
            r.chan() == s@.subrange(0, Self::n_spec() as int),
    ;

    /// The pixel whose channels are all zero.
    fn zero() -> (r: Self)
        ensures
            r == Self::zero_spec(),
    ;

    /// Return one channel of the pixel.
    fn channel(&self, i: usize) -> (r: Self::Subpixel)
        requires
            i < Self::n_spec(),
        ensures
            r == self.chan()[i as int],
    {
        proof {
            self.lemma_chan_len();
        }
        let s = self.channels();
        s[i]
    }

    /// Create a new pixel where every component is set to the same
    /// specified value.
    fn from_value(v: Self::Subpixel) -> (r: Self)
        ensures
            r.chan() == Seq::new(Self::n_spec(), |i: int| v),
    {
        let n = Self::n_channels();
        let mut buf: Vec<Self::Subpixel> = Vec::new();
        let mut i: u32 = 0;
        while i < n
            invariant
                i <= n,
                n == Self::n_spec(),
                buf@.len() == i,
                forall|k: int| 0 <= k < i ==> buf@[k] == v,
            decreases n - i,
        {
            buf.push(v);
            i = i + 1;
        }
        let r = Self::from_slice(buf.as_slice());
        proof {
            assert(r.chan() =~= Seq::new(Self::n_spec(), |i: int| v));
        }
        r
    }

    /// Set the value of the pixel from the first `n_spec()` elements of a
    /// slice.
    fn set_to_slice(&mut self, s: &[Self::Subpixel])
        requires
            s@.len() >= Self::n_spec(),
        ensures
            final(self).chan() == s@.subrange(0, Self::n_spec() as int),
    {
        *self = Self::from_slice(s);
    }

    /// The pixel whose channels all hold one.
    fn one() -> (r: Self)
        ensures
            r.chan().len() == Self::n_spec(),
            forall|i: int| 0 <= i < Self::n_spec() ==> #[trigger] r.chan()[i].sp() == 1,
    {
        let r = Self::from_value(Self::Subpixel::one());
        proof {
            r.lemma_chan_len();
        }
        r
    }

    /// The pixel whose channels all hold the smallest subpixel value.
    fn min_value() -> (r: Self)
        ensures
            r.chan().len() == Self::n_spec(),
            forall|i: int|
                0 <= i < Self::n_spec() ==> #[trigger] r.chan()[i].sp()
                    == Self::Subpixel::min_spec(),
    {
        let r = Self::from_value(Self::Subpixel::min_value());
        proof {
            r.lemma_chan_len();
        }
        r
    }

    /// The pixel whose channels all hold the largest subpixel value.
    fn max_value() -> (r: Self)
        ensures
            r.chan().len() == Self::n_spec(),
            forall|i: int|
                0 <= i < Self::n_spec() ==> #[trigger] r.chan()[i].sp()
                    == Self::Subpixel::max_spec(),
    {
        let r = Self::from_value(Self::Subpixel::max_value());
        proof {
            r.lemma_chan_len();
        }
        r
    }

    /// Compute a new pixel by applying an operation to each individual
    /// pixel component.
    fn map<F: Fn(Self::Subpixel) -> Self::Subpixel>(&self, f: F) -> (r: Self)
        requires
            forall|i: int|
                0 <= i < Self::n_spec() ==> call_requires(f, (#[trigger] self.chan()[i],)),
        ensures
            r.chan().len() == Self::n_spec(),
            forall|i: int|
                0 <= i < Self::n_spec() ==> call_ensures(
                    f,
                    (self.chan()[i],),
                    #[trigger] r.chan()[i],
                ),
    {
        proof {
            self.lemma_chan_len();
        }
        let n = Self::n_channels();
        let mut buf: Vec<Self::Subpixel> = Vec::new();
        let mut i: u32 = 0;
        while i < n
            invariant
                i <= n,
                n == Self::n_spec(),
                self.chan().len() == Self::n_spec(),
                buf@.len() == i,
                forall|k: int|
                    0 <= k < i ==> call_ensures(f, (self.chan()[k],), #[trigger] buf@[k]),
                forall|k: int|
                    0 <= k < Self::n_spec() ==> call_requires(f, (#[trigger] self.chan()[k],)),
            decreases n - i,
        {
            let c = self.channel(i as usize);
            buf.push(f(c));
            i = i + 1;
        }
        let r = Self::from_slice(buf.as_slice());
        proof {
            r.lemma_chan_len();
            assert forall|i: int| 0 <= i < Self::n_spec() implies call_ensures(
                f,
                (self.chan()[i],),
                #[trigger] r.chan()[i],
            ) by {
                assert(r.chan()[i] == buf@[i]);
            }
        }
        r
    }

    /// Compute the sum of the pixel components; every partial sum must be
    /// representable.
    fn sum(&self) -> (r: Self::Subpixel)
        requires
            forall|k: int|
                0 <= k <= Self::n_spec() ==> Self::Subpixel::min_spec() <= #[trigger] sp_prefix_sum(
                    self.chan(),
                    k,
                ) <= Self::Subpixel::max_spec(),
        ensures
            r.sp() == sp_prefix_sum(self.chan(), Self::n_spec() as int),
    {
        proof {
            self.lemma_chan_len();
        }
        let n = Self::n_channels();
        let mut acc = Self::Subpixel::zero();
        let mut i: u32 = 0;
        while i < n
            invariant
                i <= n,
                n == Self::n_spec(),
                self.chan().len() == Self::n_spec(),
                acc.sp() == sp_prefix_sum(self.chan(), i as int),
                forall|k: int|
                    0 <= k <= Self::n_spec() ==> Self::Subpixel::min_spec()
                        <= #[trigger] sp_prefix_sum(self.chan(), k) <= Self::Subpixel::max_spec(),
            decreases n - i,
        {
            let c = self.channel(i as usize);
            proof {
                c.lemma_in_range();
                assert(sp_prefix_sum(self.chan(), i + 1 as int) == sp_prefix_sum(
                    self.chan(),
                    i as int,
                ) + self.chan()[i as int].sp());
            }
            acc = acc.add_v(c);
            i = i + 1;
        }
        acc
    }

    /// Return a pixel with the absolute value of the given pixel for every
    /// channel; a channel holding an unrepresentable magnitude (the
    /// minimum of a two's-complement subpixel type) is a precondition
    /// violation.
    fn abs(&self) -> (r: Self)
        requires
            forall|i: int|
                0 <= i < Self::n_spec() ==> -Self::Subpixel::max_spec() <= (
                #[trigger] self.chan()[i]).sp(),
        ensures
            r.chan().len() == Self::n_spec(),
            forall|i: int|
                0 <= i < Self::n_spec() ==> (#[trigger] r.chan()[i]).sp() == abs(
                    self.chan()[i].sp(),
                ),
    {
        proof {
            self.lemma_chan_len();
        }
        let n = Self::n_channels();
        let mut buf: Vec<Self::Subpixel> = Vec::new();
        let mut i: u32 = 0;
        while i < n
            invariant
                i <= n,
                n == Self::n_spec(),
                self.chan().len() == Self::n_spec(),
                forall|k: int|
                    0 <= k < Self::n_spec() ==> -Self::Subpixel::max_spec() <= (
                    #[trigger] self.chan()[k]).sp(),
                buf@.len() == i,
                forall|k: int|
                    0 <= k < i ==> (#[trigger] buf@[k]).sp() == abs(self.chan()[k].sp()),
            decreases n - i,
        {
            buf.push(self.channel(i as usize).abs_v());
            i = i + 1;
        }
        let r = Self::from_slice(buf.as_slice());
        proof {
            r.lemma_chan_len();
            assert forall|i: int| 0 <= i < Self::n_spec() implies (#[trigger] r.chan()[i]).sp()
                == abs(self.chan()[i].sp()) by {
                assert(r.chan()[i] == buf@[i]);
            }
        }
        r
    }

    /// Clamp all channels of the pixel between the specified values.
    fn clamp(&mut self, low: Self::Subpixel, high: Self::Subpixel)
        requires
            low.sp() <= high.sp(),
        ensures
            final(self).chan().len() == Self::n_spec(),
            forall|i: int|
                0 <= i < Self::n_spec() ==> #[trigger] final(self).chan()[i].sp() == clamp_int(
                    old(self).chan()[i].sp(),
                    low.sp(),
                    high.sp(),
                ),
    {
        proof {
            old(self).lemma_chan_len();
        }
        let n = Self::n_channels();
        let mut buf: Vec<Self::Subpixel> = Vec::new();
        let mut i: u32 = 0;
        while i < n
            invariant
                i <= n,
                n == Self::n_spec(),
                self == old(self),
                self.chan().len() == Self::n_spec(),
                low.sp() <= high.sp(),
                buf@.len() == i,
                forall|k: int|
                    0 <= k < i ==> #[trigger] buf@[k].sp() == clamp_int(
                        self.chan()[k].sp(),
                        low.sp(),
                        high.sp(),
                    ),
            decreases n - i,
        {
            let c = self.channel(i as usize);
            let clamped = if c.lt_v(low) {
                low
            } else if high.lt_v(c) {
                high
            } else {
                c
            };
            buf.push(clamped);
            i = i + 1;
        }
        let r = Self::from_slice(buf.as_slice());
        proof {
            r.lemma_chan_len();
            assert forall|i: int| 0 <= i < Self::n_spec() implies #[trigger] r.chan()[i].sp()
                == clamp_int(old(self).chan()[i].sp(), low.sp(), high.sp()) by {
                assert(r.chan()[i] == buf@[i]);
            }
        }
        *self = r;
    }
}

/// Contains elementwise arithmetic on pixels, taking operands by value.
///
/// Each operation applies the corresponding subpixel operation channel by
/// channel; the subpixel type's own failure behaviour (overflow, division
/// by zero) is excluded by the preconditions.
pub trait PixelOps: Pixel {
    /// Elementwise addition.
    fn add(self, rhs: Self) -> (r: Self)
        requires
            forall|i: int|
                0 <= i < Self::n_spec() ==> Self::Subpixel::min_spec() <= #[trigger] self.chan()[i].sp()
                    + rhs.chan()[i].sp() <= Self::Subpixel::max_spec(),
        ensures
            r.chan().len() == Self::n_spec(),
            forall|i: int|
                0 <= i < Self::n_spec() ==> #[trigger] r.chan()[i].sp() == self.chan()[i].sp()
                    + rhs.chan()[i].sp(),
    {
        proof {
            self.lemma_chan_len();
            rhs.lemma_chan_len();
        }
        let n = Self::n_channels();
        let mut buf: Vec<Self::Subpixel> = Vec::new();
        let mut i: u32 = 0;
        while i < n
            invariant
                i <= n,
                n == Self::n_spec(),
                self.chan().len() == Self::n_spec(),
                rhs.chan().len() == Self::n_spec(),
                buf@.len() == i,
                forall|k: int|
                    0 <= k < Self::n_spec() ==> Self::Subpixel::min_spec()
                        <= #[trigger] self.chan()[k].sp() + rhs.chan()[k].sp()
                        <= Self::Subpixel::max_spec(),
                forall|k: int|
                    0 <= k < i ==> #[trigger] buf@[k].sp() == self.chan()[k].sp()
                        + rhs.chan()[k].sp(),
            decreases n - i,
        {
            buf.push(self.channel(i as usize).add_v(rhs.channel(i as usize)));
            i = i + 1;
        }
        let r = Self::from_slice(buf.as_slice());
        proof {
            r.lemma_chan_len();
            assert forall|i: int| 0 <= i < Self::n_spec() implies #[trigger] r.chan()[i].sp()
                == self.chan()[i].sp() + rhs.chan()[i].sp() by {
                assert(r.chan()[i] == buf@[i]);
            }
        }
        r
    }

    /// Elementwise subtraction.
    fn sub(self, rhs: Self) -> (r: Self)
        requires
            forall|i: int|
                0 <= i < Self::n_spec() ==> Self::Subpixel::min_spec() <= #[trigger] self.chan()[i].sp()
                    - rhs.chan()[i].sp() <= Self::Subpixel::max_spec(),
        ensures
            r.chan().len() == Self::n_spec(),
            forall|i: int|
                0 <= i < Self::n_spec() ==> #[trigger] r.chan()[i].sp() == self.chan()[i].sp()
                    - rhs.chan()[i].sp(),
    {
        proof {
            self.lemma_chan_len();
            rhs.lemma_chan_len();
        }
        let n = Self::n_channels();
        let mut buf: Vec<Self::Subpixel> = Vec::new();
        let mut i: u32 = 0;
        while i < n
            invariant
                i <= n,
                n == Self::n_spec(),
                self.chan().len() == Self::n_spec(),
                rhs.chan().len() == Self::n_spec(),
                buf@.len() == i,
                forall|k: int|
                    0 <= k < Self::n_spec() ==> Self::Subpixel::min_spec()
                        <= #[trigger] self.chan()[k].sp() - rhs.chan()[k].sp()
                        <= Self::Subpixel::max_spec(),
                forall|k: int|
                    0 <= k < i ==> #[trigger] buf@[k].sp() == self.chan()[k].sp()
                        - rhs.chan()[k].sp(),
            decreases n - i,
        {
            buf.push(self.channel(i as usize).sub_v(rhs.channel(i as usize)));
            i = i + 1;
        }
        let r = Self::from_slice(buf.as_slice());
        proof {
            r.lemma_chan_len();
            assert forall|i: int| 0 <= i < Self::n_spec() implies #[trigger] r.chan()[i].sp()
                == self.chan()[i].sp() - rhs.chan()[i].sp() by {
                assert(r.chan()[i] == buf@[i]);
            }
        }
        r
    }

    /// Elementwise multiplication.
    fn mul(self, rhs: Self) -> (r: Self)
        requires
            forall|i: int|
                0 <= i < Self::n_spec() ==> Self::Subpixel::min_spec() <= #[trigger] self.chan()[i].sp()
                    * rhs.chan()[i].sp() <= Self::Subpixel::max_spec(),
        ensures
            r.chan().len() == Self::n_spec(),
            forall|i: int|
                0 <= i < Self::n_spec() ==> #[trigger] r.chan()[i].sp() == self.chan()[i].sp()
                    * rhs.chan()[i].sp(),
    {
        proof {
            self.lemma_chan_len();
            rhs.lemma_chan_len();
        }
        let n = Self::n_channels();
        let mut buf: Vec<Self::Subpixel> = Vec::new();
        let mut i: u32 = 0;
        while i < n
            invariant
                i <= n,
                n == Self::n_spec(),
                self.chan().len() == Self::n_spec(),
                rhs.chan().len() == Self::n_spec(),
                buf@.len() == i,
                forall|k: int|
                    0 <= k < Self::n_spec() ==> Self::Subpixel::min_spec()
                        <= #[trigger] self.chan()[k].sp() * rhs.chan()[k].sp()
                        <= Self::Subpixel::max_spec(),
                forall|k: int|
                    0 <= k < i ==> #[trigger] buf@[k].sp() == self.chan()[k].sp()
                        * rhs.chan()[k].sp(),
            decreases n - i,
        {
            buf.push(self.channel(i as usize).mul_v(rhs.channel(i as usize)));
            i = i + 1;
        }
        let r = Self::from_slice(buf.as_slice());
        proof {
            r.lemma_chan_len();
            assert forall|i: int| 0 <= i < Self::n_spec() implies #[trigger] r.chan()[i].sp()
                == self.chan()[i].sp() * rhs.chan()[i].sp() by {
                assert(r.chan()[i] == buf@[i]);
            }
        }
        r
    }

    /// Elementwise truncating division.
    fn div(self, rhs: Self) -> (r: Self)
        requires
            forall|i: int| 0 <= i < Self::n_spec() ==> #[trigger] rhs.chan()[i].sp() != 0,
            forall|i: int|
                0 <= i < Self::n_spec() ==> Self::Subpixel::min_spec() <= trunc_div(
                    #[trigger] self.chan()[i].sp(),
                    rhs.chan()[i].sp(),
                ) <= Self::Subpixel::max_spec(),
        ensures
            r.chan().len() == Self::n_spec(),
            forall|i: int|
                0 <= i < Self::n_spec() ==> #[trigger] r.chan()[i].sp() == trunc_div(
                    self.chan()[i].sp(),
                    rhs.chan()[i].sp(),
                ),
    {
        proof {
            self.lemma_chan_len();
            rhs.lemma_chan_len();
        }
        let n = Self::n_channels();
        let mut buf: Vec<Self::Subpixel> = Vec::new();
        let mut i: u32 = 0;
        while i < n
            invariant
                i <= n,
                n == Self::n_spec(),
                self.chan().len() == Self::n_spec(),
                rhs.chan().len() == Self::n_spec(),
                buf@.len() == i,
                forall|k: int| 0 <= k < Self::n_spec() ==> #[trigger] rhs.chan()[k].sp() != 0,
                forall|k: int|
                    0 <= k < Self::n_spec() ==> Self::Subpixel::min_spec() <= trunc_div(
                        #[trigger] self.chan()[k].sp(),
                        rhs.chan()[k].sp(),
                    ) <= Self::Subpixel::max_spec(),
                forall|k: int|
                    0 <= k < i ==> #[trigger] buf@[k].sp() == trunc_div(
                        self.chan()[k].sp(),
                        rhs.chan()[k].sp(),
                    ),
            decreases n - i,
        {
            buf.push(self.channel(i as usize).div_v(rhs.channel(i as usize)));
            i = i + 1;
        }
        let r = Self::from_slice(buf.as_slice());
        proof {
            r.lemma_chan_len();
            assert forall|i: int| 0 <= i < Self::n_spec() implies #[trigger] r.chan()[i].sp()
                == trunc_div(self.chan()[i].sp(), rhs.chan()[i].sp()) by {
                assert(r.chan()[i] == buf@[i]);
            }
        }
        r
    }

    /// Elementwise remainder.
    fn rem(self, rhs: Self) -> (r: Self)
        requires
            forall|i: int| 0 <= i < Self::n_spec() ==> #[trigger] rhs.chan()[i].sp() != 0,
            forall|i: int|
                0 <= i < Self::n_spec() ==> Self::Subpixel::min_spec() <= trunc_div(
                    #[trigger] self.chan()[i].sp(),
                    rhs.chan()[i].sp(),
                ) <= Self::Subpixel::max_spec(),
        ensures
            r.chan().len() == Self::n_spec(),
            forall|i: int|
                0 <= i < Self::n_spec() ==> #[trigger] r.chan()[i].sp() == trunc_rem(
                    self.chan()[i].sp(),
                    rhs.chan()[i].sp(),
                ),
    {
        proof {
            self.lemma_chan_len();
            rhs.lemma_chan_len();
        }
        let n = Self::n_channels();
        let mut buf: Vec<Self::Subpixel> = Vec::new();
        let mut i: u32 = 0;
        while i < n
            invariant
                i <= n,
                n == Self::n_spec(),
                self.chan().len() == Self::n_spec(),
                rhs.chan().len() == Self::n_spec(),
                buf@.len() == i,
                forall|k: int| 0 <= k < Self::n_spec() ==> #[trigger] rhs.chan()[k].sp() != 0,
                forall|k: int|
                    0 <= k < Self::n_spec() ==> Self::Subpixel::min_spec() <= trunc_div(
                        #[trigger] self.chan()[k].sp(),
                        rhs.chan()[k].sp(),
                    ) <= Self::Subpixel::max_spec(),
                forall|k: int|
                    0 <= k < i ==> #[trigger] buf@[k].sp() == trunc_rem(
                        self.chan()[k].sp(),
                        rhs.chan()[k].sp(),
                    ),
            decreases n - i,
        {
            buf.push(self.channel(i as usize).rem_v(rhs.channel(i as usize)));
            i = i + 1;
        }
        let r = Self::from_slice(buf.as_slice());
        proof {
            r.lemma_chan_len();
            assert forall|i: int| 0 <= i < Self::n_spec() implies #[trigger] r.chan()[i].sp()
                == trunc_rem(self.chan()[i].sp(), rhs.chan()[i].sp()) by {
                assert(r.chan()[i] == buf@[i]);
            }
        }
        r
    }

    /// Add the same scalar to every channel.
    fn add_scalar(self, rhs: Self::Subpixel) -> (r: Self)
        requires
            forall|i: int|
                0 <= i < Self::n_spec() ==> Self::Subpixel::min_spec() <= #[trigger] self.chan()[i].sp()
                    + rhs.sp() <= Self::Subpixel::max_spec(),
        ensures
            r.chan().len() == Self::n_spec(),
            forall|i: int|
                0 <= i < Self::n_spec() ==> #[trigger] r.chan()[i].sp() == self.chan()[i].sp()
                    + rhs.sp(),
    {
        let p = Self::from_value(rhs);
        proof {
            p.lemma_chan_len();
        }
        self.add(p)
    }

    /// Subtract the same scalar from every channel.
    fn sub_scalar(self, rhs: Self::Subpixel) -> (r: Self)
        requires
            forall|i: int|
                0 <= i < Self::n_spec() ==> Self::Subpixel::min_spec() <= #[trigger] self.chan()[i].sp()
                    - rhs.sp() <= Self::Subpixel::max_spec(),
        ensures
            r.chan().len() == Self::n_spec(),
            forall|i: int|
                0 <= i < Self::n_spec() ==> #[trigger] r.chan()[i].sp() == self.chan()[i].sp()
                    - rhs.sp(),
    {
        let p = Self::from_value(rhs);
        proof {
            p.lemma_chan_len();
        }
        self.sub(p)
    }
}

/// The by-reference variants of the elementwise pixel arithmetic.
pub trait PixelOpsRef: PixelOps {
    /// Elementwise addition through references.
    fn add_ref(&self, rhs: &Self) -> (r: Self)
        requires
            forall|i: int|
                0 <= i < Self::n_spec() ==> Self::Subpixel::min_spec() <= #[trigger] self.chan()[i].sp()
                    + rhs.chan()[i].sp() <= Self::Subpixel::max_spec(),
        ensures
            r.chan().len() == Self::n_spec(),
            forall|i: int|
                0 <= i < Self::n_spec() ==> #[trigger] r.chan()[i].sp() == self.chan()[i].sp()
                    + rhs.chan()[i].sp(),
    {
        (*self).add(*rhs)
    }

    /// Elementwise subtraction through references.
    fn sub_ref(&self, rhs: &Self) -> (r: Self)
        requires
            forall|i: int|
                0 <= i < Self::n_spec() ==> Self::Subpixel::min_spec() <= #[trigger] self.chan()[i].sp()
                    - rhs.chan()[i].sp() <= Self::Subpixel::max_spec(),
        ensures
            r.chan().len() == Self::n_spec(),
            forall|i: int|
                0 <= i < Self::n_spec() ==> #[trigger] r.chan()[i].sp() == self.chan()[i].sp()
                    - rhs.chan()[i].sp(),
    {
        (*self).sub(*rhs)
    }

    /// Elementwise multiplication through references.
    fn mul_ref(&self, rhs: &Self) -> (r: Self)
        requires
            forall|i: int|
                0 <= i < Self::n_spec() ==> Self::Subpixel::min_spec() <= #[trigger] self.chan()[i].sp()
                    * rhs.chan()[i].sp() <= Self::Subpixel::max_spec(),
        ensures
            r.chan().len() == Self::n_spec(),
            forall|i: int|
                0 <= i < Self::n_spec() ==> #[trigger] r.chan()[i].sp() == self.chan()[i].sp()
                    * rhs.chan()[i].sp(),
    {
        (*self).mul(*rhs)
    }

    /// Elementwise division through references.
    fn div_ref(&self, rhs: &Self) -> (r: Self)
        requires
            forall|i: int| 0 <= i < Self::n_spec() ==> #[trigger] rhs.chan()[i].sp() != 0,
            forall|i: int|
                0 <= i < Self::n_spec() ==> Self::Subpixel::min_spec() <= trunc_div(
                    #[trigger] self.chan()[i].sp(),
                    rhs.chan()[i].sp(),
                ) <= Self::Subpixel::max_spec(),
        ensures
            r.chan().len() == Self::n_spec(),
            forall|i: int|
                0 <= i < Self::n_spec() ==> #[trigger] r.chan()[i].sp() == trunc_div(
                    self.chan()[i].sp(),
                    rhs.chan()[i].sp(),
                ),
    {
        (*self).div(*rhs)
    }

    /// Elementwise remainder through references.
    fn rem_ref(&self, rhs: &Self) -> (r: Self)
        requires
            forall|i: int| 0 <= i < Self::n_spec() ==> #[trigger] rhs.chan()[i].sp() != 0,
            forall|i: int|
                0 <= i < Self::n_spec() ==> Self::Subpixel::min_spec() <= trunc_div(
                    #[trigger] self.chan()[i].sp(),
                    rhs.chan()[i].sp(),
                ) <= Self::Subpixel::max_spec(),
        ensures
            r.chan().len() == Self::n_spec(),
            forall|i: int|
                0 <= i < Self::n_spec() ==> #[trigger] r.chan()[i].sp() == trunc_rem(
                    self.chan()[i].sp(),
                    rhs.chan()[i].sp(),
                ),
    {
        (*self).rem(*rhs)
    }
}

/// Enables casts between pixel types with the same channel count but
/// different subpixel types.
///
/// Conversion applies the library's single casting policy per channel
/// (see [`cast_or_zero`]): a channel value representable in the target
/// subpixel type is kept, anything else degrades to the target's zero.
/// Casting never fails.
pub trait PixelCast<O: Primitive>: Pixel {
    /// Result type of the cast.
    type Output: Pixel<Subpixel = O>;

    /// The cast target holds as many channels as the source.
    proof fn lemma_output_arity()
        ensures
            Self::n_spec() == Self::Output::n_spec(),
    ;

    /// Perform the cast.
    fn cast(&self) -> (r: Self::Output)
        ensures
            r.chan().len() == Self::n_spec(),
            forall|i: int|
                0 <= i < Self::n_spec() ==> (#[trigger] r.chan()[i]).sp() == cast_or_zero(
                    self.chan()[i].sp(),
                    O::min_spec(),
                    O::max_spec(),
                ),
    {
        proof {
            Self::lemma_output_arity();
            self.lemma_chan_len();
        }
        let n = Self::n_channels();
        let mut buf: Vec<O> = Vec::new();
        let mut i: u32 = 0;
        while i < n
            invariant
                i <= n,
                n == Self::n_spec(),
                self.chan().len() == Self::n_spec(),
                buf@.len() == i,
                forall|k: int|
                    0 <= k < i ==> (#[trigger] buf@[k]).sp() == cast_or_zero(
                        self.chan()[k].sp(),
                        O::min_spec(),
                        O::max_spec(),
                    ),
            decreases n - i,
        {
            buf.push(O::from_i64_cast(self.channel(i as usize).to_i64()));
            i = i + 1;
        }
        proof {
            Self::lemma_output_arity();
        }
        let r = Self::Output::from_slice(buf.as_slice());
        proof {
            r.lemma_chan_len();
            assert forall|i: int| 0 <= i < Self::n_spec() implies (#[trigger] r.chan()[i]).sp()
                == cast_or_zero(self.chan()[i].sp(), O::min_spec(), O::max_spec()) by {
                assert(r.chan()[i] == buf@[i]);
            }
        }
        r
    }

    /// Cast `self` into `other`.
    fn cast_to(&self, other: &mut Self::Output)
        ensures
            final(other).chan().len() == Self::n_spec(),
            forall|i: int|
                0 <= i < Self::n_spec() ==> (#[trigger] final(other).chan()[i]).sp()
                    == cast_or_zero(self.chan()[i].sp(), O::min_spec(), O::max_spec()),
    {
        *other = self.cast();
    }

    /// Set `self` from `other`, casting in the opposite direction.
    fn cast_from(&mut self, other: &Self::Output)
        ensures
            final(self).chan().len() == Self::n_spec(),
            forall|i: int|
                0 <= i < Self::n_spec() ==> (#[trigger] final(self).chan()[i]).sp()
                    == cast_or_zero(
                    other.chan()[i].sp(),
                    Self::Subpixel::min_spec(),
                    Self::Subpixel::max_spec(),
                ),
    {
        proof {
            Self::lemma_output_arity();
            other.lemma_chan_len();
        }
        let n = Self::n_channels();
        let mut buf: Vec<Self::Subpixel> = Vec::new();
        let mut i: u32 = 0;
        while i < n
            invariant
                i <= n,
                n == Self::n_spec(),
                n == Self::Output::n_spec(),
                other.chan().len() == Self::Output::n_spec(),
                buf@.len() == i,
                forall|k: int|
                    0 <= k < i ==> (#[trigger] buf@[k]).sp() == cast_or_zero(
                        other.chan()[k].sp(),
                        Self::Subpixel::min_spec(),
                        Self::Subpixel::max_spec(),
                    ),
            decreases n - i,
        {
            buf.push(Self::Subpixel::from_i64_cast(other.channel(i as usize).to_i64()));
            i = i + 1;
        }
        let r = Self::from_slice(buf.as_slice());
        proof {
            r.lemma_chan_len();
            assert forall|i: int| 0 <= i < Self::n_spec() implies (#[trigger] r.chan()[i]).sp()
                == cast_or_zero(
                other.chan()[i].sp(),
                Self::Subpixel::min_spec(),
                Self::Subpixel::max_spec(),
            ) by {
                assert(r.chan()[i] == buf@[i]);
            }
        }
        *self = r;
    }
}

/// Trait for types representing image regions.
pub trait Region {
    /// Whether the region covers the point `(x, y)`.
    spec fn contains_spec(self, x: int, y: int) -> bool;

    /// Return `true` if the region contains the specified point, `false`
    /// otherwise.
    fn contains(&self, x: u32, y: u32) -> (r: bool)
        ensures
            r == self.contains_spec(x as int, y as int),
    ;
}

} // verus!
