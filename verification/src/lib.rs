//! A 2-D pixel-array library: typed image buffers, border padding and
//! generic kernel convolution, with machine-checked contracts.
//!
//! The library is organised bottom-up: numeric subpixel primitives and the
//! pixel types built on them, axis-aligned rectangles, the row-major image
//! buffer, the four border-extension (padding) strategies, and the
//! fixed-point convolution engine.

pub mod color_convert;
pub mod dynamic_image;
pub mod draw;
pub mod error;
pub mod format;
pub mod histogram;
pub mod neighborhood;
pub mod rect;
pub mod image2d;
pub mod kernel;
pub mod padding;
pub mod pixel_types;
pub mod traits;
