//! Points, rectangles and line segments in fixed-point logical coordinates.

use vstd::prelude::*;

verus! {

/// Fixed-point steps in one logical unit: a scalar `v` stands for `v / UNIT`.
pub const UNIT: i64 = 1000;

/// Largest magnitude of a rectangle's edge. Keeping edges inside
/// `-COORD_MAX ..= COORD_MAX` lets every derived extent and midpoint fit `i64`.
pub const COORD_MAX: i64 = 4_000_000_000_000_000_000;

/// A point of the logical plane, origin at the centre, y growing upward.
#[derive(Clone, Copy, Debug, PartialEq, Eq, Structural)]
pub struct Point2D {
    pub x: i64,
    pub y: i64,
}

/// A straight stroke from `start` to `end`, `weight` thick.
#[derive(Clone, Copy, Debug, PartialEq, Eq, Structural)]
pub struct LineSegment {
    pub start: Point2D,
    pub end: Point2D,
    pub weight: i64,
}

/// The mathematical content of a [`Rect`]: its four edges.
pub struct RectView {
    pub left: int,
    pub right: int,
    pub bottom: int,
    pub top: int,
}

impl RectView {
    /// The edges are ordered and within the coordinate range.
    pub open spec fn wf(self) -> bool {
        &&& -COORD_MAX <= self.left < self.right <= COORD_MAX
        &&& -COORD_MAX <= self.bottom < self.top <= COORD_MAX
    }

    /// The distance from the left edge to the right edge.
    pub open spec fn width(self) -> int {
        self.right - self.left
    }

    /// The distance from the bottom edge to the top edge.
    pub open spec fn height(self) -> int {
        self.top - self.bottom
    }

    /// Midpoint of the horizontal extent, rounded toward negative infinity.
    pub open spec fn center_x(self) -> int {
        (self.left + self.right) / 2
    }

    /// Midpoint of the vertical extent, rounded toward negative infinity.
    pub open spec fn center_y(self) -> int {
        (self.bottom + self.top) / 2
    }
}

/// The point with the given coordinates, each of which fits `i64`.
pub open spec fn point(x: int, y: int) -> Point2D {
    Point2D { x: x as i64, y: y as i64 }
}

/// What is left of an extent `len` after an inset of `pad` at both ends.
///
/// The lower end moves inward by `pad`. The upper end then moves inward too,
/// unless the lower end has passed it: then it moves outward, and the extent
/// is as it was. Where the two ends cross, what is left is the distance
/// between them.
pub open spec fn inset_extent(len: int, pad: int) -> int {
    if pad <= len {
        if len - 2 * pad >= 0 {
            len - 2 * pad
        } else {
            2 * pad - len
        }
    } else {
        len
    }
}

/// An axis-aligned rectangle with `left < right` and `bottom < top`.
#[derive(Clone, Copy, Debug, PartialEq, Eq)]
pub struct Rect {
    left: i64,
    right: i64,
    bottom: i64,
    top: i64,
}

impl View for Rect {
    type V = RectView;

    closed spec fn view(&self) -> RectView {
        RectView {
            left: self.left as int,
            right: self.right as int,
            bottom: self.bottom as int,
            top: self.top as int,
        }
    }
}

impl Rect {
    /// Every rectangle that executable code holds is well formed.
    #[verifier::type_invariant]
    pub open spec fn wf(&self) -> bool {
        self@.wf()
    }

    /// The rectangle with the given edges, if they form one.
    pub fn from_edges(left: i64, right: i64, bottom: i64, top: i64) -> (rect: Option<Rect>)
        ensures
            rect.is_some() <==> (RectView {
                left: left as int,
                right: right as int,
                bottom: bottom as int,
                top: top as int,
            }).wf(),
            rect.is_some() ==> rect.unwrap()@ == (RectView {
                left: left as int,
                right: right as int,
                bottom: bottom as int,
                top: top as int,
            }),
    {
        if -COORD_MAX <= left && left < right && right <= COORD_MAX && -COORD_MAX <= bottom
            && bottom < top && top <= COORD_MAX {
            Some(Rect { left, right, bottom, top })
        } else {
            None
        }
    }

    /// The rectangle around `center` that reaches `half_width` to either side
    /// and `half_height` up and down, if that is one.
    pub fn from_center(center: Point2D, half_width: i64, half_height: i64) -> (rect: Option<Rect>)
        ensures
            rect.is_some() <==> (RectView {
                left: center.x - half_width,
                right: center.x + half_width,
                bottom: center.y - half_height,
                top: center.y + half_height,
            }).wf(),
            rect.is_some() ==> rect.unwrap()@ == (RectView {
                left: center.x - half_width,
                right: center.x + half_width,
                bottom: center.y - half_height,
                top: center.y + half_height,
            }),
    {
        if half_width <= 0 || half_height <= 0 || half_width > COORD_MAX || half_height
            > COORD_MAX {
            return None;
        }
        if center.x < -COORD_MAX || center.x > COORD_MAX || center.y < -COORD_MAX || center.y
            > COORD_MAX {
            return None;
        }
        Rect::from_edges(
            center.x - half_width,
            center.x + half_width,
            center.y - half_height,
            center.y + half_height,
        )
    }

    /// The x coordinate of the left edge.
    pub fn left(&self) -> (x: i64)
        ensures
            x == self@.left,
            self.wf(),
    {
        proof {
            use_type_invariant(self);
        }
        self.left
    }

    /// The x coordinate of the right edge.
    pub fn right(&self) -> (x: i64)
        ensures
            x == self@.right,
            self.wf(),
    {
        proof {
            use_type_invariant(self);
        }
        self.right
    }

    /// The y coordinate of the bottom edge.
    pub fn bottom(&self) -> (y: i64)
        ensures
            y == self@.bottom,
            self.wf(),
    {
        proof {
            use_type_invariant(self);
        }
        self.bottom
    }

    /// The y coordinate of the top edge.
    pub fn top(&self) -> (y: i64)
        ensures
            y == self@.top,
            self.wf(),
    {
        proof {
            use_type_invariant(self);
        }
        self.top
    }

    /// The distance from the left edge to the right edge.
    pub fn width(&self) -> (w: i64)
        ensures
            w == self@.width(),
            w > 0,
            self.wf(),
    {
        proof {
            use_type_invariant(self);
        }
        self.right - self.left
    }

    /// The distance from the bottom edge to the top edge.
    pub fn height(&self) -> (h: i64)
        ensures
            h == self@.height(),
            h > 0,
            self.wf(),
    {
        proof {
            use_type_invariant(self);
        }
        self.top - self.bottom
    }

    /// The point in the middle of the rectangle.
    pub fn center(&self) -> (p: Point2D)
        ensures
            p == point(self@.center_x(), self@.center_y()),
            p.x == self@.center_x(),
            p.y == self@.center_y(),
            self@.left <= p.x < self@.right,
            self@.bottom <= p.y < self@.top,
            self.wf(),
    {
        proof {
            use_type_invariant(self);
        }
        Point2D {
            x: self.left + (self.right - self.left) / 2,
            y: self.bottom + (self.top - self.bottom) / 2,
        }
    }

    /// The middle of the top edge.
    pub fn mid_top(&self) -> (p: Point2D)
        ensures
            p == point(self@.center_x(), self@.top),
    {
        Point2D { x: self.center().x, y: self.top() }
    }

    /// The middle of the right edge.
    pub fn mid_right(&self) -> (p: Point2D)
        ensures
            p == point(self@.right, self@.center_y()),
    {
        Point2D { x: self.right(), y: self.center().y }
    }

    /// The middle of the bottom edge.
    pub fn mid_bottom(&self) -> (p: Point2D)
        ensures
            p == point(self@.center_x(), self@.bottom),
    {
        Point2D { x: self.center().x, y: self.bottom() }
    }

    /// The middle of the left edge.
    pub fn mid_left(&self) -> (p: Point2D)
        ensures
            p == point(self@.left, self@.center_y()),
    {
        Point2D { x: self.left(), y: self.center().y }
    }

    /// The corner where the top edge meets the left edge.
    pub fn top_left(&self) -> (p: Point2D)
        ensures
            p == point(self@.left, self@.top),
    {
        Point2D { x: self.left(), y: self.top() }
    }

    /// The corner where the top edge meets the right edge.
    pub fn top_right(&self) -> (p: Point2D)
        ensures
            p == point(self@.right, self@.top),
    {
        Point2D { x: self.right(), y: self.top() }
    }

    /// The corner where the bottom edge meets the left edge.
    pub fn bottom_left(&self) -> (p: Point2D)
        ensures
            p == point(self@.left, self@.bottom),
    {
        Point2D { x: self.left(), y: self.bottom() }
    }

    /// The corner where the bottom edge meets the right edge.
    pub fn bottom_right(&self) -> (p: Point2D)
        ensures
            p == point(self@.right, self@.bottom),
    {
        Point2D { x: self.right(), y: self.bottom() }
    }

    /// The width that an inset of `pad` at the left and at the right leaves.
    pub fn inset_width(&self, pad: i64) -> (w: i64)
        requires
            self@.width() - 2 * pad <= i64::MAX,
        ensures
            w == inset_extent(self@.width(), pad as int),
    {
        inset(self.width(), pad)
    }

    /// The height that an inset of `pad` at the bottom and at the top leaves.
    pub fn inset_height(&self, pad: i64) -> (h: i64)
        requires
            self@.height() - 2 * pad <= i64::MAX,
        ensures
            h == inset_extent(self@.height(), pad as int),
    {
        inset(self.height(), pad)
    }
}

fn inset(len: i64, pad: i64) -> (r: i64)
    requires
        len > 0,
        len - 2 * pad <= i64::MAX,
    ensures
        r == inset_extent(len as int, pad as int),
{
    if pad <= len {
        let inner: i64 = (len - pad) - pad;
        if inner >= 0 {
            inner
        } else {
            pad - (len - pad)
        }
    } else {
        len
    }
}

} // verus!
