//! The concrete pixel types of the library.
//!
//! Four fixed-arity pixel types share one generic subpixel parameter:
//! [`Luma`] (one channel), [`LumaA`] (two), [`Rgb`] (three) and [`RgbA`]
//! (four). All of them implement [`Pixel`] and the elementwise arithmetic
//! of [`PixelOps`] / [`PixelOpsRef`].

use vstd::prelude::*;

use crate::traits::{Pixel, PixelCast, PixelOps, PixelOpsRef, Primitive};

verus! {

/// Enumerate the supported subpixel types.
#[derive(Debug, Clone, Copy, PartialEq, Eq, Structural)]
pub enum SubpixelType {
    /// u8
    U8,
    /// u16
    U16,
    /// u32
    U32,
    /// u64
    U64,
    /// i8
    I8,
    /// i16
    I16,
    /// i32
    I32,
    /// i64
    I64,
    /// f32
    F32,
    /// f64
    F64,
    /// Intended for custom subpixel types.
    Other,
}

/// Enumerate the supported pixel types.
#[derive(Debug, Clone, Copy, PartialEq, Eq, Structural)]
pub enum PixelType {
    /// Single channel, i.e. grayscale.
    Luma,
    /// Dual channel, i.e. grayscale with alpha.
    LumaA,
    /// Triple channel, i.e. color.
    Rgb,
    /// Quad channel, i.e. color with alpha.
    RgbA,
}

/// Grayscale pixel type.
#[derive(Debug, Clone, Copy, PartialEq, Eq)]
pub struct Luma<P: Primitive> {
    /// Pixel channels.
    pub data: [P; 1],
}

impl<P: Primitive> Luma<P> {
    /// Construct a pixel from an array representing its channels.
    pub fn new(data: [P; 1]) -> (r: Luma<P>)
        ensures
            r.data == data,
            r.chan() == data@,
    {
        Luma { data }
    }
}

impl<P: Primitive> Pixel for Luma<P> {
    type Subpixel = P;

    open spec fn chan(self) -> Seq<P> {
        self.data@
    }

    open spec fn n_spec() -> nat {
        1
    }

    open spec fn zero_spec() -> Self {
        Luma { data: [P::zero_sp()] }
    }

    proof fn lemma_arity() {
    }

    proof fn lemma_chan_len(self) {
    }

    proof fn lemma_chan_injective(a: Self, b: Self) {
        assert(a.data@ =~= b.data@);
        assert(a.data =~= b.data);
    }

    proof fn lemma_zero_spec() {
        P::lemma_zero_sp();
    }

    fn n_channels() -> (n: u32) {
        1
    }

    fn channels(&self) -> (s: &[P]) {
        self.data.as_slice()
    }

    fn from_slice(s: &[P]) -> (r: Self) {
        let r = Luma { data: [s[0]] };
        proof {
            assert(r.chan() =~= s@.subrange(0, 1));
        }
        r
    }

    fn zero() -> (r: Self) {
        let z = P::zero();
        let r = Luma { data: [z] };
        proof {
            assert(r.data =~= Self::zero_spec().data);
        }
        r
    }
}

impl<P: Primitive> PixelOps for Luma<P> {

}

impl<P: Primitive> PixelOpsRef for Luma<P> {

}

/// Grayscale with alpha pixel type.
#[derive(Debug, Clone, Copy, PartialEq, Eq)]
pub struct LumaA<P: Primitive> {
    /// Pixel channels.
    pub data: [P; 2],
}

impl<P: Primitive> LumaA<P> {
    /// Construct a pixel from an array representing its channels.
    pub fn new(data: [P; 2]) -> (r: LumaA<P>)
        ensures
            r.data == data,
            r.chan() == data@,
    {
        LumaA { data }
    }
}

impl<P: Primitive> Pixel for LumaA<P> {
    type Subpixel = P;

    open spec fn chan(self) -> Seq<P> {
        self.data@
    }

    open spec fn n_spec() -> nat {
        2
    }

    open spec fn zero_spec() -> Self {
        LumaA { data: [P::zero_sp(), P::zero_sp()] }
    }

    proof fn lemma_arity() {
    }

    proof fn lemma_chan_len(self) {
    }

    proof fn lemma_chan_injective(a: Self, b: Self) {
        assert(a.data@ =~= b.data@);
        assert(a.data =~= b.data);
    }

    proof fn lemma_zero_spec() {
        P::lemma_zero_sp();
    }

    fn n_channels() -> (n: u32) {
        2
    }

    fn channels(&self) -> (s: &[P]) {
        self.data.as_slice()
    }

    fn from_slice(s: &[P]) -> (r: Self) {
        let r = LumaA { data: [s[0], s[1]] };
        proof {
            assert(r.chan() =~= s@.subrange(0, 2));
        }
        r
    }

    fn zero() -> (r: Self) {
        let z = P::zero();
        let r = LumaA { data: [z, z] };
        proof {
            assert(r.data =~= Self::zero_spec().data);
        }
        r
    }
}

impl<P: Primitive> PixelOps for LumaA<P> {

}

impl<P: Primitive> PixelOpsRef for LumaA<P> {

}

/// RGB pixel type.
#[derive(Debug, Clone, Copy, PartialEq, Eq)]
pub struct Rgb<P: Primitive> {
    /// Pixel channels.
    pub data: [P; 3],
}

impl<P: Primitive> Rgb<P> {
    /// Construct a pixel from an array representing its channels.
    pub fn new(data: [P; 3]) -> (r: Rgb<P>)
        ensures
            r.data == data,
            r.chan() == data@,
    {
        Rgb { data }
    }
}

impl<P: Primitive> Pixel for Rgb<P> {
    type Subpixel = P;

    open spec fn chan(self) -> Seq<P> {
        self.data@
    }

    open spec fn n_spec() -> nat {
        3
    }

    open spec fn zero_spec() -> Self {
        Rgb { data: [P::zero_sp(), P::zero_sp(), P::zero_sp()] }
    }

    proof fn lemma_arity() {
    }

    proof fn lemma_chan_len(self) {
    }

    proof fn lemma_chan_injective(a: Self, b: Self) {
        assert(a.data@ =~= b.data@);
        assert(a.data =~= b.data);
    }

    proof fn lemma_zero_spec() {
        P::lemma_zero_sp();
    }

    fn n_channels() -> (n: u32) {
        3
    }

    fn channels(&self) -> (s: &[P]) {
        self.data.as_slice()
    }

    fn from_slice(s: &[P]) -> (r: Self) {
        let r = Rgb { data: [s[0], s[1], s[2]] };
        proof {
            assert(r.chan() =~= s@.subrange(0, 3));
        }
        r
    }

    fn zero() -> (r: Self) {
        let z = P::zero();
        let r = Rgb { data: [z, z, z] };
        proof {
            assert(r.data =~= Self::zero_spec().data);
        }
        r
    }
}

impl<P: Primitive> PixelOps for Rgb<P> {

}

impl<P: Primitive> PixelOpsRef for Rgb<P> {

}

/// RGB with alpha pixel type.
#[derive(Debug, Clone, Copy, PartialEq, Eq)]
pub struct RgbA<P: Primitive> {
    /// Pixel channels.
    pub data: [P; 4],
}

impl<P: Primitive> RgbA<P> {
    /// Construct a pixel from an array representing its channels.
    pub fn new(data: [P; 4]) -> (r: RgbA<P>)
        ensures
            r.data == data,
            r.chan() == data@,
    {
        RgbA { data }
    }
}

impl<P: Primitive> Pixel for RgbA<P> {
    type Subpixel = P;

    open spec fn chan(self) -> Seq<P> {
        self.data@
    }

    open spec fn n_spec() -> nat {
        4
    }

    open spec fn zero_spec() -> Self {
        RgbA { data: [P::zero_sp(), P::zero_sp(), P::zero_sp(), P::zero_sp()] }
    }

    proof fn lemma_arity() {
    }

    proof fn lemma_chan_len(self) {
    }

    proof fn lemma_chan_injective(a: Self, b: Self) {
        assert(a.data@ =~= b.data@);
        assert(a.data =~= b.data);
    }

    proof fn lemma_zero_spec() {
        P::lemma_zero_sp();
    }

    fn n_channels() -> (n: u32) {
        4
    }

    fn channels(&self) -> (s: &[P]) {
        self.data.as_slice()
    }

    fn from_slice(s: &[P]) -> (r: Self) {
        let r = RgbA { data: [s[0], s[1], s[2], s[3]] };
        proof {
            assert(r.chan() =~= s@.subrange(0, 4));
        }
        r
    }

    fn zero() -> (r: Self) {
        let z = P::zero();
        let r = RgbA { data: [z, z, z, z] };
        proof {
            assert(r.data =~= Self::zero_spec().data);
        }
        r
    }
}

impl<P: Primitive> PixelOps for RgbA<P> {

}

impl<P: Primitive> PixelOpsRef for RgbA<P> {

}

impl<P: Primitive> From<P> for Luma<P> {
    fn from(data: P) -> (r: Luma<P>) {
        Luma { data: [data] }
    }
}

impl<P: Primitive> vstd::std_specs::convert::FromSpecImpl<P> for Luma<P> {
    open spec fn obeys_from_spec() -> bool {
        true
    }

    open spec fn from_spec(data: P) -> Self {
        Luma { data: [data] }
    }
}

impl<P: Primitive> From<LumaA<P>> for Luma<P> {
    fn from(pixel: LumaA<P>) -> (r: Luma<P>) {
        Luma { data: [pixel.data[0]] }
    }
}

impl<P: Primitive> vstd::std_specs::convert::FromSpecImpl<LumaA<P>> for Luma<P> {
    open spec fn obeys_from_spec() -> bool {
        true
    }

    open spec fn from_spec(pixel: LumaA<P>) -> Self {
        Luma { data: [pixel.data@[0]] }
    }
}

impl<P: Primitive> From<RgbA<P>> for Rgb<P> {
    fn from(pixel: RgbA<P>) -> (r: Rgb<P>) {
        Rgb { data: [pixel.data[0], pixel.data[1], pixel.data[2]] }
    }
}

impl<P: Primitive> vstd::std_specs::convert::FromSpecImpl<RgbA<P>> for Rgb<P> {
    open spec fn obeys_from_spec() -> bool {
        true
    }

    open spec fn from_spec(pixel: RgbA<P>) -> Self {
        Rgb { data: [pixel.data@[0], pixel.data@[1], pixel.data@[2]] }
    }
}

impl<S: Primitive, O: Primitive> PixelCast<O> for Luma<S> {
    type Output = Luma<O>;

    proof fn lemma_output_arity() {
    }
}

impl<S: Primitive, O: Primitive> PixelCast<O> for LumaA<S> {
    type Output = LumaA<O>;

    proof fn lemma_output_arity() {
    }
}

impl<S: Primitive, O: Primitive> PixelCast<O> for Rgb<S> {
    type Output = Rgb<O>;

    proof fn lemma_output_arity() {
    }
}

impl<S: Primitive, O: Primitive> PixelCast<O> for RgbA<S> {
    type Output = RgbA<O>;

    proof fn lemma_output_arity() {
    }
}

} // verus!
