//! Error kinds shared by the whole library.

use vstd::prelude::*;

verus! {

/// The recoverable failures of the library.
///
/// Construction-time and region-copy failures are reported through this
/// enum; in-bounds pixel access is a documented precondition instead.
#[derive(Debug, Clone, Copy, PartialEq, Eq, Structural)]
pub enum ImageError {
    /// A vector length does not match the requested `width * height`.
    InvalidDimensions,
    /// A rectangle was requested with a zero width or height.
    InvalidRectangle,
    /// A kernel element count does not match `(2 * radius + 1)^2`.
    InvalidKernelSize,
    /// Two rectangles handed to a copy operation differ in size.
    RectSizeMismatch,
    /// A rectangle does not fit inside the image it is used on.
    RectOutOfBounds,
    /// A direct pixel access lies beyond the image extent.
    OutOfBounds,
    /// A dynamic image does not hold the requested pixel type.
    IncorrectImageType,
}

impl ImageError {
    /// A short human-readable name for the error.
    pub fn message(&self) -> String {
        match self {
            ImageError::InvalidDimensions => "invalid dimensions".to_string(),
            ImageError::InvalidRectangle => "invalid rectangle".to_string(),
            ImageError::InvalidKernelSize => "invalid kernel size".to_string(),
            ImageError::RectSizeMismatch => "rect size mismatch".to_string(),
            ImageError::RectOutOfBounds => "rect out of bounds".to_string(),
            ImageError::OutOfBounds => "out of bounds".to_string(),
            ImageError::IncorrectImageType => "incorrect image type".to_string(),
        }
    }
}

} // verus!
