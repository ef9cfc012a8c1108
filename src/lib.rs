//! A line-oriented software compositor: drawables are blended into one
//! horizontal strip of an output buffer at a time.
//!
//! Coordinates grow rightwards and downwards, and are in pixels unless noted.

use vstd::prelude::*;

pub mod blend;
pub mod drawable;
pub mod drawables;
pub mod interval;
pub mod pixel_formats;
pub mod render;

pub use drawable::{Effect, Sprite};
pub use interval::{intersect, offset};
pub use render::{
    render_line, render_over_line, render_over_segment, render_segment, render_under_line,
    render_under_segment,
};

verus! {

/// Defines a pixel format for the output buffer.
pub trait PixelFormat {
    /// Bits used for each pixel, padding included, as contracts speak of it.
    spec fn stride_bits() -> nat;

    /// Bits used for each pixel, padding included.
    fn pixel_stride_bits() -> (r: usize)
        requires
            Self::stride_bits() <= usize::MAX,
        ensures
            r == Self::stride_bits(),
    ;
}

/// Where a drawable is placed: its origin in the output's coordinates.
#[derive(Debug, Clone, Copy, PartialEq, Eq, Hash, Structural)]
pub struct Position {
    /// Rightwards offset, in pixels.
    pub x: isize,
    /// Downwards offset, in pixels.
    pub y: isize,
}

} // verus!
