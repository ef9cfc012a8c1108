//! Ready-made drawables.

pub mod bitmap;
pub mod color_clip;
pub mod zoomed_bitmap;

pub use bitmap::Bitmap;
pub use color_clip::ColorClip;
pub use zoomed_bitmap::ZoomedBitmap;
