//! Rectangular regions for terminal layout.
use vstd::prelude::*;

verus! {

/// A rectangular region on the terminal.
#[derive(Clone, Copy, PartialEq, Eq, Structural, Debug)]
pub struct Rect {
    /// Column of the top-left corner.
    pub x: u16,
    /// Row of the top-left corner.
    pub y: u16,
    /// Width in columns.
    pub width: u16,
    /// Height in rows.
    pub height: u16,
}

impl Rect {
    /// Create a rectangle.
    pub fn new(x: u16, y: u16, width: u16, height: u16) -> (r: Rect)
        ensures
            r == (Rect { x, y, width, height }),
    {
        Rect { x, y, width, height }
    }

    /// The whole terminal as a rectangle.
    pub fn from_size(width: u16, height: u16) -> (r: Rect)
        ensures
            r == (Rect { x: 0u16, y: 0u16, width, height }),
    {
        Rect { x: 0, y: 0, width, height }
    }

    /// The rectangle shrunk by `padding` on every side; width and height
    /// saturate at zero.
    pub fn inner(&self, padding: u16) -> (r: Rect)
        requires
            self.x + padding <= u16::MAX,
            self.y + padding <= u16::MAX,
            padding * 2 <= u16::MAX,
        ensures
            r.x == self.x + padding,
            r.y == self.y + padding,
            r.width == (if self.width >= padding * 2 {
                self.width - padding * 2
            } else {
                0
            }),
            r.height == (if self.height >= padding * 2 {
                self.height - padding * 2
            } else {
                0
            }),
    {
        let pad2 = padding * 2;
        Rect {
            x: self.x + padding,
            y: self.y + padding,
            width: if self.width >= pad2 {
                self.width - pad2
            } else {
                0
            },
            height: if self.height >= pad2 {
                self.height - pad2
            } else {
                0
            },
        }
    }

    /// Split into a left and a right part at a percentage of the width.
    pub fn split_horizontal(&self, percent: u16) -> (r: (Rect, Rect))
        requires
            percent <= 100,
            self.x + self.width <= u16::MAX,
        ensures
            r.0.x == self.x && r.0.y == self.y && r.0.height == self.height,
            r.1.y == self.y && r.1.height == self.height,
            r.0.width == self.width as int * percent as int / 100,
            r.1.x == self.x + r.0.width,
            r.0.width + r.1.width == self.width,
    {
        proof {
            assert(self.width as int * percent as int <= self.width as int * 100)
                by (nonlinear_arith)
                requires
                    percent <= 100,
            ;
            assert(self.width as int * percent as int / 100 <= self.width as int)
                by (nonlinear_arith)
                requires
                    percent <= 100,
            ;
        }
        let split_wide: u32 = self.width as u32 * percent as u32 / 100;
        let split = split_wide as u16;
        let left = Rect { x: self.x, y: self.y, width: split, height: self.height };
        let right = Rect {
            x: self.x + split,
            y: self.y,
            width: self.width - split,
            height: self.height,
        };
        (left, right)
    }

    /// Split into a top and a bottom part at a percentage of the height.
    pub fn split_vertical(&self, percent: u16) -> (r: (Rect, Rect))
        requires
            percent <= 100,
            self.y + self.height <= u16::MAX,
        ensures
            r.0.x == self.x && r.0.y == self.y && r.0.width == self.width,
            r.1.x == self.x && r.1.width == self.width,
            r.0.height == self.height as int * percent as int / 100,
            r.1.y == self.y + r.0.height,
            r.0.height + r.1.height == self.height,
    {
        proof {
            assert(self.height as int * percent as int <= self.height as int * 100)
                by (nonlinear_arith)
                requires
                    percent <= 100,
            ;
            assert(self.height as int * percent as int / 100 <= self.height as int)
                by (nonlinear_arith)
                requires
                    percent <= 100,
            ;
        }
        let split_tall: u32 = self.height as u32 * percent as u32 / 100;
        let split = split_tall as u16;
        let top = Rect { x: self.x, y: self.y, width: self.width, height: split };
        let bottom = Rect {
            x: self.x,
            y: self.y + split,
            width: self.width,
            height: self.height - split,
        };
        (top, bottom)
    }
}

} // verus!
