//! Pointer positions and the selection rectangle.
//!
//! Positions are whole pixels relative to the top-left corner of a window.
//! A selection rectangle is spanned by two positions, the drag origin and the
//! current pointer position, and never has a zero side.

use vstd::prelude::*;

verus! {

/// A pointer position in window coordinates.
#[derive(Clone, Copy, Debug, PartialEq, Eq, Structural)]
pub struct Point {
    pub x: i32,
    pub y: i32,
}

/// A rectangle given by its top-left corner and its size.
#[derive(Clone, Copy, Debug, PartialEq, Eq, Structural)]
pub struct SelectionRect {
    pub x: i32,
    pub y: i32,
    pub width: u32,
    pub height: u32,
}

/// The smaller of two integers.
pub open spec fn min_int(a: int, b: int) -> int {
    if a <= b {
        a
    } else {
        b
    }
}

/// The larger of two integers.
pub open spec fn max_int(a: int, b: int) -> int {
    if a >= b {
        a
    } else {
        b
    }
}

/// The distance between two integers.
pub open spec fn distance(a: int, b: int) -> int {
    if a >= b {
        a - b
    } else {
        b - a
    }
}

/// `v` moved onto the interval from 0 to `max`, both ends included.
pub open spec fn clamped(v: int, max: int) -> int {
    if v < 0 {
        0
    } else if v > max {
        max
    } else {
        v
    }
}

impl SelectionRect {
    /// A rectangle is well formed when neither side is zero.
    pub open spec fn wf(self) -> bool {
        self.width >= 1 && self.height >= 1
    }

    /// The column just past the right edge.
    pub open spec fn right(self) -> int {
        self.x + self.width
    }

    /// The row just past the bottom edge.
    pub open spec fn bottom(self) -> int {
        self.y + self.height
    }

    /// Whether the pixel at column `px`, row `py` lies in the rectangle.
    pub open spec fn contains(self, px: int, py: int) -> bool {
        self.x <= px < self.right() && self.y <= py < self.bottom()
    }

    /// Whether the pixel lies on the one-pixel-wide border of the rectangle.
    pub open spec fn on_outline(self, px: int, py: int) -> bool {
        self.contains(px, py) && (px == self.x || px == self.right() - 1 || py == self.y || py
            == self.bottom() - 1)
    }

    /// Whether the whole rectangle lies inside a grid of the given size.
    pub open spec fn within(self, width: int, height: int) -> bool {
        0 <= self.x && self.right() <= width && 0 <= self.y && self.bottom() <= height
    }

    /// Whether the rectangle and a grid of the given size share a pixel.
    pub open spec fn overlaps(self, width: int, height: int) -> bool {
        max_int(self.x as int, 0) < min_int(self.right(), width) && max_int(self.y as int, 0)
            < min_int(self.bottom(), height)
    }

    /// The part of the rectangle that lies inside a grid of the given size.
    pub open spec fn clipped(self, width: int, height: int) -> SelectionRect {
        SelectionRect {
            x: max_int(self.x as int, 0) as i32,
            y: max_int(self.y as int, 0) as i32,
            width: (min_int(self.right(), width) - max_int(self.x as int, 0)) as u32,
            height: (min_int(self.bottom(), height) - max_int(self.y as int, 0)) as u32,
        }
    }

    /// Tells whether the pixel at column `px`, row `py` lies on the
    /// one-pixel-wide border of the rectangle.
    pub fn is_on_outline(self, px: u32, py: u32) -> (out: bool)
        ensures
            out == self.on_outline(px as int, py as int),
    {
        let x: i64 = px as i64;
        let y: i64 = py as i64;
        let left: i64 = self.x as i64;
        let top: i64 = self.y as i64;
        let right: i64 = left + self.width as i64;
        let bottom: i64 = top + self.height as i64;
        left <= x && x < right && top <= y && y < bottom && (x == left || x == right - 1 || y
            == top || y == bottom - 1)
    }

    /// Cuts the rectangle down to a grid `width` columns wide and `height`
    /// rows high. Gives `None` when no pixel of the rectangle lies inside.
    pub fn clip(self, width: u32, height: u32) -> (out: Option<SelectionRect>)
        ensures
            out.is_some() <==> self.overlaps(width as int, height as int),
            out matches Some(r) ==> r == self.clipped(width as int, height as int) && r.wf()
                && r.within(width as int, height as int),
    {
        let left: i64 = if self.x < 0 {
            0
        } else {
            self.x as i64
        };
        let top: i64 = if self.y < 0 {
            0
        } else {
            self.y as i64
        };
        let far_right: i64 = self.x as i64 + self.width as i64;
        let far_bottom: i64 = self.y as i64 + self.height as i64;
        let right: i64 = if far_right < width as i64 {
            far_right
        } else {
            width as i64
        };
        let bottom: i64 = if far_bottom < height as i64 {
            far_bottom
        } else {
            height as i64
        };
        if left < right && top < bottom {
            Some(
                SelectionRect {
                    x: left as i32,
                    y: top as i32,
                    width: (right - left) as u32,
                    height: (bottom - top) as u32,
                },
            )
        } else {
            None
        }
    }
}

/// The rectangle spanned by two positions: its corner is the smaller
/// coordinate on each axis, its sides are the distances, at least 1 each.
pub open spec fn normalized(start: Point, end: Point) -> SelectionRect {
    SelectionRect {
        x: min_int(start.x as int, end.x as int) as i32,
        y: min_int(start.y as int, end.y as int) as i32,
        width: max_int(distance(start.x as int, end.x as int), 1) as u32,
        height: max_int(distance(start.y as int, end.y as int), 1) as u32,
    }
}

/// The position clamped onto a window `x_max` wide and `y_max` high.
pub open spec fn kept_in_window(pos: Point, x_max: u32, y_max: u32) -> Point {
    Point { x: clamped(pos.x as int, x_max as int) as i32, y: clamped(pos.y as int, y_max as int) as i32 }
}

/// Clamps one coordinate onto the interval from 0 to `max`.
fn clamp_coordinate(v: i32, max: u32) -> (out: i32)
    ensures
        out as int == clamped(v as int, max as int),
{
    if v < 0 {
        0
    } else if v as i64 > max as i64 {
        max as i32
    } else {
        v
    }
}

/// Moves a pointer position that left the window back onto its edge: each
/// coordinate ends between 0 and the window's size on that axis.
pub fn keep_mouse_in_window(pos: Point, x_max: u32, y_max: u32) -> (out: Point)
    ensures
        out == kept_in_window(pos, x_max, y_max),
        0 <= out.x <= x_max,
        0 <= out.y <= y_max,
        0 <= pos.x <= x_max ==> out.x == pos.x,
        0 <= pos.y <= y_max ==> out.y == pos.y,
{
    Point { x: clamp_coordinate(pos.x, x_max), y: clamp_coordinate(pos.y, y_max) }
}

/// The side of a rectangle between two coordinates on one axis.
fn span(a: i32, b: i32) -> (out: u32)
    ensures
        out as int == max_int(distance(a as int, b as int), 1),
{
    let d: i64 = if a >= b {
        a as i64 - b as i64
    } else {
        b as i64 - a as i64
    };
    if d < 1 {
        1
    } else {
        d as u32
    }
}

/// Builds the selection rectangle between two pointer positions, in either
/// order.
pub fn normalize(start: Point, end: Point) -> (rect: SelectionRect)
    ensures
        rect == normalized(start, end),
        rect.wf(),
        rect.x as int == min_int(start.x as int, end.x as int),
        rect.y as int == min_int(start.y as int, end.y as int),
        rect.width as int == max_int(distance(start.x as int, end.x as int), 1),
        rect.height as int == max_int(distance(start.y as int, end.y as int), 1),
{
    SelectionRect {
        x: if start.x <= end.x {
            start.x
        } else {
            end.x
        },
        y: if start.y <= end.y {
            start.y
        } else {
            end.y
        },
        width: span(start.x, end.x),
        height: span(start.y, end.y),
    }
}

/// The order of the two positions does not matter.
pub proof fn lemma_normalize_symmetric(start: Point, end: Point)
    ensures
        normalized(start, end) == normalized(end, start),
{
}

/// A rectangle spanned by two positions has no zero side and holds its
/// corner, the pixel at the smaller coordinate on each axis.
pub proof fn lemma_normalize_contains_corner(start: Point, end: Point)
    ensures
        normalized(start, end).wf(),
        normalized(start, end).contains(
            min_int(start.x as int, end.x as int),
            min_int(start.y as int, end.y as int),
        ),
{
}

/// A position outside the window lands on the window's edge and nowhere
/// beyond; one inside stays where it is; clamping twice changes nothing.
pub proof fn lemma_clamp_onto_boundary(pos: Point, x_max: u32, y_max: u32)
    ensures
        pos.x < 0 ==> kept_in_window(pos, x_max, y_max).x == 0,
        pos.x > x_max ==> kept_in_window(pos, x_max, y_max).x == x_max,
        pos.y < 0 ==> kept_in_window(pos, x_max, y_max).y == 0,
        pos.y > y_max ==> kept_in_window(pos, x_max, y_max).y == y_max,
        0 <= pos.x <= x_max ==> kept_in_window(pos, x_max, y_max).x == pos.x,
        0 <= pos.y <= y_max ==> kept_in_window(pos, x_max, y_max).y == pos.y,
        kept_in_window(kept_in_window(pos, x_max, y_max), x_max, y_max) == kept_in_window(
            pos,
            x_max,
            y_max,
        ),
{
}

/// A rectangle spanned by two positions of a window lies inside the
/// window, unless both positions lie on the far edge of an axis, where
/// the floor of one pixel reaches one pixel past it.
pub proof fn lemma_normalize_within(start: Point, end: Point, x_max: u32, y_max: u32)
    requires
        0 <= start.x <= x_max,
        0 <= end.x <= x_max,
        0 <= start.y <= y_max,
        0 <= end.y <= y_max,
    ensures
        0 <= normalized(start, end).x <= x_max,
        0 <= normalized(start, end).y <= y_max,
        normalized(start, end).right() <= x_max + 1,
        normalized(start, end).bottom() <= y_max + 1,
        !(start.x == x_max && end.x == x_max) && !(start.y == y_max && end.y == y_max) ==> normalized(
            start,
            end,
        ).within(x_max as int, y_max as int),
{
}

/// What `clip` keeps is exactly the pixels of the rectangle that lie in the
/// grid.
pub proof fn lemma_clip_keeps_inner_pixels(rect: SelectionRect, width: u32, height: u32, px: int, py: int)
    requires
        rect.overlaps(width as int, height as int),
    ensures
        rect.clipped(width as int, height as int).contains(px, py) <==> (rect.contains(px, py) && 0
            <= px < width && 0 <= py < height),
{
}

} // verus!
