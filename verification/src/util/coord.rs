//! X11 coordinates: origin at the top left, y growing downward, in physical
//! pixels.

use vstd::prelude::*;

verus! {

/// A point in X11 coordinates.
#[derive(Debug, Clone, Copy, PartialEq, Eq, Structural)]
pub struct X11Point {
    pub x: i16,
    pub y: i16,
}

impl Default for X11Point {
    fn default() -> (r: X11Point)
        ensures
            r == (X11Point { x: 0, y: 0 }),
    {
        X11Point { x: 0, y: 0 }
    }
}

/// A rectangle in X11 coordinates.
#[derive(Debug, Clone, Copy, PartialEq, Eq, Structural)]
pub struct X11Rect {
    pub x: i16,
    pub y: i16,
    pub width: u16,
    pub height: u16,
}

impl Default for X11Rect {
    fn default() -> (r: X11Rect)
        ensures
            r == (X11Rect { x: 0, y: 0, width: 0, height: 0 }),
    {
        X11Rect { x: 0, y: 0, width: 0, height: 0 }
    }
}

impl X11Rect {
    /// Whether a pixel lies inside the rectangle.
    pub open spec fn covers(self, px: int, py: int) -> bool {
        self.x <= px < self.x + self.width && self.y <= py < self.y + self.height
    }
}

} // verus!
