//! Screen rectangles in cells.

use vstd::prelude::*;

use crate::num;

verus! {

#[derive(Debug, Clone, Copy, PartialEq, Eq, Structural)]
pub struct Rect {
    pub x: u16,
    pub y: u16,
    pub width: u16,
    pub height: u16,
}

impl Rect {
    /// One past the last column, held to what a coordinate can say.
    pub open spec fn right_edge(self) -> int {
        num::min(self.x + self.width, u16::MAX as int)
    }

    /// One past the last row, held to what a coordinate can say.
    pub open spec fn bottom_edge(self) -> int {
        num::min(self.y + self.height, u16::MAX as int)
    }

    pub open spec fn has_cell(self, column: int, row: int) -> bool {
        self.x <= column < self.right_edge() && self.y <= row < self.bottom_edge()
    }

    /// A rectangle whose edges a coordinate can say: what goes past them is cut
    /// off.
    pub fn new(x: u16, y: u16, width: u16, height: u16) -> (r: Rect)
        ensures
            r == Self::cut(x as int, y as int, width as int, height as int),
            r.right_edge() == r.x + r.width,
            r.bottom_edge() == r.y + r.height,
    {
        Rect {
            x,
            y,
            width: num::min_u16(width, u16::MAX - x),
            height: num::min_u16(height, u16::MAX - y),
        }
    }

    pub open spec fn cut(x: int, y: int, width: int, height: int) -> Rect {
        Rect {
            x: x as u16,
            y: y as u16,
            width: num::min(width, u16::MAX - x) as u16,
            height: num::min(height, u16::MAX - y) as u16,
        }
    }

    /// Coordinates can say where the rectangle ends.
    pub open spec fn fits(self) -> bool {
        self.x + self.width <= u16::MAX && self.y + self.height <= u16::MAX
    }

    /// The rectangle without a border of one cell.
    pub open spec fn inside(self) -> Rect {
        if self.width < 2 || self.height < 2 {
            Rect { x: 0, y: 0, width: 0, height: 0 }
        } else {
            Rect {
                x: num::min(self.x + 1, u16::MAX as int) as u16,
                y: num::min(self.y + 1, u16::MAX as int) as u16,
                width: (self.width - 2) as u16,
                height: (self.height - 2) as u16,
            }
        }
    }

    pub fn inner(&self) -> (r: Rect)
        ensures
            r == self.inside(),
            self.fits() ==> r.fits(),
    {
        if self.width < 2 || self.height < 2 {
            return Rect { x: 0, y: 0, width: 0, height: 0 };
        }
        Rect {
            x: self.x.saturating_add(1),
            y: self.y.saturating_add(1),
            width: self.width - 2,
            height: self.height - 2,
        }
    }

    pub fn right(&self) -> (r: u16)
        ensures
            r == self.right_edge(),
    {
        self.x.saturating_add(self.width)
    }

    pub fn bottom(&self) -> (r: u16)
        ensures
            r == self.bottom_edge(),
    {
        self.y.saturating_add(self.height)
    }

    /// Whether a cell lies inside.
    pub fn contains(&self, column: u16, row: u16) -> (r: bool)
        ensures
            r == self.has_cell(column as int, row as int),
    {
        self.x <= column && column < self.right() && self.y <= row && row < self.bottom()
    }
}

} // verus!
