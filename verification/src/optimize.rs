//! Raster positions used when placing labels.

use vstd::prelude::*;

verus! {

/// A pixel of the label raster.
#[derive(Debug, Clone)]
pub struct Pixel {
    pub x: usize,
    pub y: usize,
}

} // verus!
