use vstd::prelude::*;

verus! {

/// The host window's drawing area, in whole pixels. The host measures the
/// window and hands the dimensions in; the library only carries them.
pub struct Viewport {
    pub width: u32,
    pub height: u32,
}

impl Viewport {
    /// A viewport of the given dimensions.
    pub fn new(width: u32, height: u32) -> (v: Viewport)
        ensures
            v.width == width,
            v.height == height,
    {
        Viewport { width, height }
    }

    /// Width in pixels.
    pub fn width(&self) -> (w: u32)
        ensures
            w == self.width,
    {
        self.width
    }

    /// Height in pixels.
    pub fn height(&self) -> (h: u32)
        ensures
            h == self.height,
    {
        self.height
    }
}

} // verus!
