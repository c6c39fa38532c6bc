//! Definition of the dynamic image type.

use vstd::prelude::*;

use crate::error::ImageError;
use crate::image2d::ImageBuffer2D;
use crate::pixel_types::{Luma, LumaA, PixelType, Rgb, RgbA};

verus! {

/// The bit depth of an image's channels.
#[derive(Debug, Clone, Copy, PartialEq, Eq, Structural)]
pub enum BitDepth {
    /// Eight bits per channel.
    _8,
    /// Sixteen bits per channel.
    _16,
}

/// The runtime type of a dynamic image: its pixel kind and bit depth.
pub type ImageType = (PixelType, BitDepth);

/// Image of dynamic pixel type.
pub enum DynamicImage {
    /// 8 bit grayscale image.
    LumaU8(Box<ImageBuffer2D<Luma<u8>>>),
    /// 16 bit grayscale image.
    LumaU16(Box<ImageBuffer2D<Luma<u16>>>),
    /// 8 bit grayscale with alpha image.
    LumaAU8(Box<ImageBuffer2D<LumaA<u8>>>),
    /// 16 bit grayscale with alpha image.
    LumaAU16(Box<ImageBuffer2D<LumaA<u16>>>),
    /// 8 bit color image.
    RgbU8(Box<ImageBuffer2D<Rgb<u8>>>),
    /// 16 bit color image.
    RgbU16(Box<ImageBuffer2D<Rgb<u16>>>),
    /// 8 bit color with alpha image.
    RgbAU8(Box<ImageBuffer2D<RgbA<u8>>>),
    /// 16 bit color with alpha image.
    RgbAU16(Box<ImageBuffer2D<RgbA<u16>>>),
}

impl DynamicImage {
    /// The pixel kind held by the image.
    pub open spec fn channels_spec(self) -> PixelType {
        match self {
            DynamicImage::LumaU8(_) | DynamicImage::LumaU16(_) => PixelType::Luma,
            DynamicImage::LumaAU8(_) | DynamicImage::LumaAU16(_) => PixelType::LumaA,
            DynamicImage::RgbU8(_) | DynamicImage::RgbU16(_) => PixelType::Rgb,
            DynamicImage::RgbAU8(_) | DynamicImage::RgbAU16(_) => PixelType::RgbA,
        }
    }

    /// The bit depth held by the image.
    pub open spec fn bit_depth_spec(self) -> BitDepth {
        match self {
            DynamicImage::LumaU8(_)
            | DynamicImage::LumaAU8(_)
            | DynamicImage::RgbU8(_)
            | DynamicImage::RgbAU8(_) => BitDepth::_8,
            DynamicImage::LumaU16(_)
            | DynamicImage::LumaAU16(_)
            | DynamicImage::RgbU16(_)
            | DynamicImage::RgbAU16(_) => BitDepth::_16,
        }
    }

    /// Check whether the image is a grayscale image.
    pub fn is_luma(&self) -> (r: bool)
        ensures
            r == (self.channels_spec() == PixelType::Luma),
    {
        match self {
            DynamicImage::LumaU8(_) | DynamicImage::LumaU16(_) => true,
            _ => false,
        }
    }

    /// Check whether the image is a grayscale image with alpha.
    pub fn is_luma_alpha(&self) -> (r: bool)
        ensures
            r == (self.channels_spec() == PixelType::LumaA),
    {
        match self {
            DynamicImage::LumaAU8(_) | DynamicImage::LumaAU16(_) => true,
            _ => false,
        }
    }

    /// Check whether the image is a color image.
    pub fn is_rgb(&self) -> (r: bool)
        ensures
            r == (self.channels_spec() == PixelType::Rgb),
    {
        match self {
            DynamicImage::RgbU8(_) | DynamicImage::RgbU16(_) => true,
            _ => false,
        }
    }

    /// Check whether the image is a color image with alpha.
    pub fn is_rgb_alpha(&self) -> (r: bool)
        ensures
            r == (self.channels_spec() == PixelType::RgbA),
    {
        match self {
            DynamicImage::RgbAU8(_) | DynamicImage::RgbAU16(_) => true,
            _ => false,
        }
    }

    /// Return the type of the image channels.
    pub fn channels(&self) -> (r: PixelType)
        ensures
            r == self.channels_spec(),
    {
        match self {
            DynamicImage::LumaU8(_) | DynamicImage::LumaU16(_) => PixelType::Luma,
            DynamicImage::LumaAU8(_) | DynamicImage::LumaAU16(_) => PixelType::LumaA,
            DynamicImage::RgbU8(_) | DynamicImage::RgbU16(_) => PixelType::Rgb,
            DynamicImage::RgbAU8(_) | DynamicImage::RgbAU16(_) => PixelType::RgbA,
        }
    }

    /// Return the image bit depth.
    pub fn bit_depth(&self) -> (r: BitDepth)
        ensures
            r == self.bit_depth_spec(),
    {
        match self {
            DynamicImage::LumaU8(_)
            | DynamicImage::LumaAU8(_)
            | DynamicImage::RgbU8(_)
            | DynamicImage::RgbAU8(_) => BitDepth::_8,
            DynamicImage::LumaU16(_)
            | DynamicImage::LumaAU16(_)
            | DynamicImage::RgbU16(_)
            | DynamicImage::RgbAU16(_) => BitDepth::_16,
        }
    }

    /// Return the type of the image.
    pub fn image_type(&self) -> (r: ImageType)
        ensures
            r.0 == self.channels_spec(),
            r.1 == self.bit_depth_spec(),
    {
        (self.channels(), self.bit_depth())
    }

    /// Try extracting the image as an 8 bit grayscale image.
    pub fn as_luma_u8(self) -> (r: Result<Box<ImageBuffer2D<Luma<u8>>>, ImageError>)
        ensures
            r is Ok <==> self is LumaU8,
            r is Ok ==> self == DynamicImage::LumaU8(r->Ok_0),
            r is Err ==> r == Result::<Box<ImageBuffer2D<Luma<u8>>>, ImageError>::Err(
                ImageError::IncorrectImageType,
            ),
    {
        match self {
            DynamicImage::LumaU8(img) => Ok(img),
            _ => Err(ImageError::IncorrectImageType),
        }
    }

    /// Try extracting the image as a 16 bit grayscale image.
    pub fn as_luma_u16(self) -> (r: Result<Box<ImageBuffer2D<Luma<u16>>>, ImageError>)
        ensures
            r is Ok <==> self is LumaU16,
            r is Ok ==> self == DynamicImage::LumaU16(r->Ok_0),
            r is Err ==> r == Result::<Box<ImageBuffer2D<Luma<u16>>>, ImageError>::Err(
                ImageError::IncorrectImageType,
            ),
    {
        match self {
            DynamicImage::LumaU16(img) => Ok(img),
            _ => Err(ImageError::IncorrectImageType),
        }
    }

    /// Try extracting the image as an 8 bit grayscale image with alpha.
    pub fn as_luma_alpha_u8(self) -> (r: Result<Box<ImageBuffer2D<LumaA<u8>>>, ImageError>)
        ensures
            r is Ok <==> self is LumaAU8,
            r is Ok ==> self == DynamicImage::LumaAU8(r->Ok_0),
            r is Err ==> r == Result::<Box<ImageBuffer2D<LumaA<u8>>>, ImageError>::Err(
                ImageError::IncorrectImageType,
            ),
    {
        match self {
            DynamicImage::LumaAU8(img) => Ok(img),
            _ => Err(ImageError::IncorrectImageType),
        }
    }

    /// Try extracting the image as a 16 bit grayscale image with alpha.
    pub fn as_luma_alpha_u16(self) -> (r: Result<Box<ImageBuffer2D<LumaA<u16>>>, ImageError>)
        ensures
            r is Ok <==> self is LumaAU16,
            r is Ok ==> self == DynamicImage::LumaAU16(r->Ok_0),
            r is Err ==> r == Result::<Box<ImageBuffer2D<LumaA<u16>>>, ImageError>::Err(
                ImageError::IncorrectImageType,
            ),
    {
        match self {
            DynamicImage::LumaAU16(img) => Ok(img),
            _ => Err(ImageError::IncorrectImageType),
        }
    }

    /// Try extracting the image as an 8 bit color image.
    pub fn as_rgb_u8(self) -> (r: Result<Box<ImageBuffer2D<Rgb<u8>>>, ImageError>)
        ensures
            r is Ok <==> self is RgbU8,
            r is Ok ==> self == DynamicImage::RgbU8(r->Ok_0),
            r is Err ==> r == Result::<Box<ImageBuffer2D<Rgb<u8>>>, ImageError>::Err(
                ImageError::IncorrectImageType,
            ),
    {
        match self {
            DynamicImage::RgbU8(img) => Ok(img),
            _ => Err(ImageError::IncorrectImageType),
        }
    }

    /// Try extracting the image as a 16 bit color image.
    pub fn as_rgb_u16(self) -> (r: Result<Box<ImageBuffer2D<Rgb<u16>>>, ImageError>)
        ensures
            r is Ok <==> self is RgbU16,
            r is Ok ==> self == DynamicImage::RgbU16(r->Ok_0),
            r is Err ==> r == Result::<Box<ImageBuffer2D<Rgb<u16>>>, ImageError>::Err(
                ImageError::IncorrectImageType,
            ),
    {
        match self {
            DynamicImage::RgbU16(img) => Ok(img),
            _ => Err(ImageError::IncorrectImageType),
        }
    }

    /// Try extracting the image as an 8 bit color image with alpha.
    pub fn as_rgb_alpha_u8(self) -> (r: Result<Box<ImageBuffer2D<RgbA<u8>>>, ImageError>)
        ensures
            r is Ok <==> self is RgbAU8,
            r is Ok ==> self == DynamicImage::RgbAU8(r->Ok_0),
            r is Err ==> r == Result::<Box<ImageBuffer2D<RgbA<u8>>>, ImageError>::Err(
                ImageError::IncorrectImageType,
            ),
    {
        match self {
            DynamicImage::RgbAU8(img) => Ok(img),
            _ => Err(ImageError::IncorrectImageType),
        }
    }

    /// Try extracting the image as a 16 bit color image with alpha.
    pub fn as_rgb_alpha_u16(self) -> (r: Result<Box<ImageBuffer2D<RgbA<u16>>>, ImageError>)
        ensures
            r is Ok <==> self is RgbAU16,
            r is Ok ==> self == DynamicImage::RgbAU16(r->Ok_0),
            r is Err ==> r == Result::<Box<ImageBuffer2D<RgbA<u16>>>, ImageError>::Err(
                ImageError::IncorrectImageType,
            ),
    {
        match self {
            DynamicImage::RgbAU16(img) => Ok(img),
            _ => Err(ImageError::IncorrectImageType),
        }
    }
}

} // verus!
