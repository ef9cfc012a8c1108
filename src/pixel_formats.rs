//! Pixel formats.

use crate::PixelFormat;
use vstd::prelude::*;

verus! {

/// Red, green, blue and alpha channels of `BIT_DEPTH` bits each, without
/// padding: the usual format of images with transparency.
#[derive(Debug, Clone, Copy, PartialEq, Eq, PartialOrd, Ord, Hash)]
pub struct RgbaNoPadding<const BIT_DEPTH: usize>;

impl<const BIT_DEPTH: usize> PixelFormat for RgbaNoPadding<BIT_DEPTH> {
    open spec fn stride_bits() -> nat {
        (4 * BIT_DEPTH) as nat
    }

    fn pixel_stride_bits() -> (r: usize) {
        4 * BIT_DEPTH
    }
}

/// Red, green and blue channels of `BIT_DEPTH` bits each, without padding:
/// the usual format of solid images.
#[derive(Debug, Clone, Copy, PartialEq, Eq, PartialOrd, Ord, Hash)]
pub struct RgbNoPadding<const BIT_DEPTH: usize>;

impl<const BIT_DEPTH: usize> PixelFormat for RgbNoPadding<BIT_DEPTH> {
    open spec fn stride_bits() -> nat {
        (3 * BIT_DEPTH) as nat
    }

    fn pixel_stride_bits() -> (r: usize) {
        3 * BIT_DEPTH
    }
}

} // verus!
