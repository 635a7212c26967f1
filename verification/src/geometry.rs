//! Rectangles of terminal cells.
use vstd::prelude::*;

verus! {

/// A rectangle of cells: its top left corner, and its size.
#[derive(Clone, Copy, Debug, PartialEq, Eq, Structural)]
pub struct Rect {
    pub x: u16,
    pub y: u16,
    pub width: u16,
    pub height: u16,
}

/// `n`, or the largest `u16` where `n` is larger.
pub open spec fn clamp16(n: int) -> int {
    if n <= u16::MAX {
        n
    } else {
        u16::MAX as int
    }
}

/// `n`, or zero where `n` is negative.
pub open spec fn floor0(n: int) -> int {
    if n < 0 {
        0
    } else {
        n
    }
}

/// The smaller of two numbers.
pub open spec fn least(a: int, b: int) -> int {
    if a <= b {
        a
    } else {
        b
    }
}

/// The larger of two numbers.
pub open spec fn larger(a: int, b: int) -> int {
    if a <= b {
        b
    } else {
        a
    }
}

/// The rectangle without cells at the origin.
pub open spec fn empty_rect() -> Rect {
    Rect { x: 0, y: 0, width: 0, height: 0 }
}

impl Default for Rect {
    fn default() -> (r: Self)
        ensures
            r == empty_rect(),
    {
        Rect { x: 0, y: 0, width: 0, height: 0 }
    }
}

impl Rect {
    /// Whether the cell at `column`, `row` lies in the rectangle. The cells at
    /// the largest coordinate lie in none.
    pub open spec fn holds(self, column: int, row: int) -> bool {
        &&& self.x <= column < clamp16(self.x + self.width)
        &&& self.y <= row < clamp16(self.y + self.height)
    }
}

/// Whether `rect` holds the cell at `column`, `row`.
pub fn rect_contains(rect: Rect, column: u16, row: u16) -> (r: bool)
    ensures
        r == rect.holds(column as int, row as int),
{
    column >= rect.x && column < rect.x.saturating_add(rect.width) && row >= rect.y && row
        < rect.y.saturating_add(rect.height)
}

} // verus!
