//! A recipe for a tile-sized sub-surface: its dimensions, its offset inside
//! the parent image, and the background it starts from.

use vstd::prelude::*;

use crate::colorspace::Colorspace;
use crate::surface::{pad_to, Surface};

verus! {

/// Describes one surface to be allocated: a `width x height` region at
/// `(x_off, y_off)` of a parent image, filled with `background`.
pub struct SurfaceFactory<CS> {
    pub width: usize,
    pub height: usize,
    pub x_off: usize,
    pub y_off: usize,
    pub background: CS,
}

impl<CS: Colorspace> SurfaceFactory<CS> {
    pub fn new(width: usize, height: usize, x_off: usize, y_off: usize, background: CS) -> (r:
        SurfaceFactory<CS>)
        ensures
            r == (SurfaceFactory { width, height, x_off, y_off, background }),
    {
        SurfaceFactory { width, height, x_off, y_off, background }
    }

    /// Allocate the described surface, filled with the background.
    pub fn create(&self) -> (r: Surface<CS>)
        requires
            self.width + 128 <= usize::MAX,
            self.height + 8 <= usize::MAX,
            pad_to(self.width as int, 128) * pad_to(self.height as int, 8) <= usize::MAX,
        ensures
            r.wf(),
            r.spec_rect().width == self.width,
            r.spec_rect().height == self.height,
            r.spec_background() == self.background,
            r.spec_buffer() == Seq::new(
                (pad_to(self.width as int, 128) * pad_to(self.height as int, 8)) as nat,
                |i: int| self.background,
            ),
    {
        Surface::new(self.width, self.height, self.background)
    }
}

} // verus!
