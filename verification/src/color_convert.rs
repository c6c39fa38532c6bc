//! Colorspace tag types.
//!
//! A colorspace is described by a zero-sized tag type naming the pixel
//! type its values are represented in. The numeric conversions between
//! colorspaces are floating-point computations and live outside the
//! verified core; the tags and their constructors are shared here so that
//! both sides speak of the same colorspaces.

use core::marker::PhantomData;

use vstd::prelude::*;

use crate::pixel_types::Luma as PLuma;
use crate::traits::{Pixel, Primitive};

verus! {

/// Implemented by types describing a colorspace.
pub trait Colorspace {
    /// Pixel type in which values are represented.
    type Pixel;
}

/// Linear colorspace.
pub struct Linear<P>
where P: Pixel {
    _phantom: PhantomData<P>,
}

impl<P> Linear<P>
where P: Pixel {
    /// Construct a new object representing a linear colorspace.
    pub fn new() -> Linear<P> {
        Linear { _phantom: PhantomData }
    }
}

impl<P> Colorspace for Linear<P>
where P: Pixel {
    type Pixel = P;
}

/// Single channel representing luminance.
pub struct Luminance<S>
where S: Primitive {
    _phantom: PhantomData<S>,
}

impl<S> Luminance<S>
where S: Primitive {
    /// Construct a new object representing a single channel colorspace
    /// with values representing luminance.
    pub fn new() -> Luminance<S> {
        Luminance { _phantom: PhantomData }
    }
}

impl<S> Colorspace for Luminance<S>
where S: Primitive {
    type Pixel = PLuma<S>;
}

/// Single channel representing luma.
pub struct Luma<S>
where S: Primitive {
    _phantom: PhantomData<S>,
}

impl<S> Luma<S>
where S: Primitive {
    /// Construct a new object representing a single channel colorspace
    /// with values representing luma.
    pub fn new() -> Luma<S> {
        Luma { _phantom: PhantomData }
    }
}

impl<S> Colorspace for Luma<S>
where S: Primitive {
    type Pixel = PLuma<S>;
}

} // verus!
