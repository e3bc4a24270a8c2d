//! Builds a single-row spritesheet out of a set of transparent images.
//!
//! Each input image is auto-cropped to the tight bounding box of its
//! non-transparent pixels; a uniform cell size is taken from the largest
//! cropped dimensions; and every cropped sprite is composited into its cell,
//! either centered or at the top-left corner.

use vstd::prelude::*;

pub mod cli;
pub mod codec;
pub mod compose;
pub mod cropping;
pub mod errors;
pub mod layout;
pub mod pipeline;
pub mod raster;

verus! {

} // verus!
