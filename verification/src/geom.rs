//! Geometry primitives: 2D vectors, directed line segments and axis-aligned
//! rectangles on an exact integer grid.

use vstd::prelude::*;

verus! {

/// Largest magnitude allowed for a coordinate, a radius or a per-step travel
/// component fed into the collision queries.  Intermediate products of the
/// sweep test stay well inside `i128` for values bounded by this.
pub const COORD_LIMIT: i64 = 0x100_0000_0000;

/// Holds of every scalar the collision queries accept as a coordinate.
pub open spec fn in_range(x: int) -> bool {
    -COORD_LIMIT <= x <= COORD_LIMIT
}

/// A product of scalars bounded in magnitude is bounded by the product of
/// the bounds; used to show the wide intermediate arithmetic never
/// overflows `i128`.
pub proof fn lemma_mul_bounds(x: int, y: int, bx: int, by: int)
    requires
        -bx <= x <= bx,
        -by <= y <= by,
        0 <= bx,
        0 <= by,
    ensures
        -(bx * by) <= x * y <= bx * by,
{
    assert(-(bx * by) <= x * y <= bx * by) by (nonlinear_arith)
        requires
            -bx <= x <= bx,
            -by <= y <= by,
            0 <= bx,
            0 <= by,
    ;
}

/// A 2D vector (or point) with exact integer components.
#[derive(Clone, Copy, Debug, PartialEq, Eq, Structural)]
pub struct Vec2 {
    pub x: i64,
    pub y: i64,
}

/// A typedef for [`Vec2`] mainly used for representing points.
pub type Point = Vec2;

impl Vec2 {
    /// Both components lie within [`COORD_LIMIT`].
    pub open spec fn bounded(self) -> bool {
        in_range(self.x as int) && in_range(self.y as int)
    }

    /// The vector is one of the four axis unit directions.
    pub open spec fn is_axis_normal(self) -> bool {
        ||| (self.x == 1 || self.x == -1) && self.y == 0
        ||| self.x == 0 && (self.y == 1 || self.y == -1)
    }

    pub fn new(x: i64, y: i64) -> (r: Vec2)
        ensures
            r.x == x,
            r.y == y,
    {
        Vec2 { x, y }
    }

    pub fn zero() -> (r: Vec2)
        ensures
            r.x == 0,
            r.y == 0,
    {
        Vec2 { x: 0, y: 0 }
    }

    /// Componentwise sum.
    pub fn plus(self, other: Vec2) -> (r: Vec2)
        requires
            i64::MIN <= self.x + other.x <= i64::MAX,
            i64::MIN <= self.y + other.y <= i64::MAX,
        ensures
            r.x == self.x + other.x,
            r.y == self.y + other.y,
    {
        Vec2 { x: self.x + other.x, y: self.y + other.y }
    }

    /// Componentwise difference.
    pub fn minus(self, other: Vec2) -> (r: Vec2)
        requires
            i64::MIN <= self.x - other.x <= i64::MAX,
            i64::MIN <= self.y - other.y <= i64::MAX,
        ensures
            r.x == self.x - other.x,
            r.y == self.y - other.y,
    {
        Vec2 { x: self.x - other.x, y: self.y - other.y }
    }

    /// Componentwise negation.
    pub fn negated(self) -> (r: Vec2)
        requires
            self.x > i64::MIN,
            self.y > i64::MIN,
        ensures
            r.x == -self.x,
            r.y == -self.y,
    {
        Vec2 { x: -self.x, y: -self.y }
    }

    /// The vector scaled by an integer factor.
    pub fn scaled(self, factor: i64) -> (r: Vec2)
        requires
            i64::MIN <= self.x * factor <= i64::MAX,
            i64::MIN <= self.y * factor <= i64::MAX,
        ensures
            r.x == self.x * factor,
            r.y == self.y * factor,
    {
        let rx: i64 = ((self.x as i128) * (factor as i128)) as i64;
        let ry: i64 = ((self.y as i128) * (factor as i128)) as i64;
        Vec2 { x: rx, y: ry }
    }

    /// Exact dot product, wide enough to never overflow for bounded inputs.
    pub fn dot(a: Vec2, b: Vec2) -> (r: i128)
        requires
            a.bounded(),
            b.bounded(),
        ensures
            r == a.x * b.x + a.y * b.y,
    {
        proof {
            lemma_mul_bounds(a.x as int, b.x as int, COORD_LIMIT as int, COORD_LIMIT as int);
            lemma_mul_bounds(a.y as int, b.y as int, COORD_LIMIT as int, COORD_LIMIT as int);
        }
        (a.x as i128) * (b.x as i128) + (a.y as i128) * (b.y as i128)
    }

    /// Exact squared Euclidean distance between two points.
    pub fn distance_squared(a: Vec2, b: Vec2) -> (r: i128)
        requires
            a.bounded(),
            b.bounded(),
        ensures
            r == (a.x - b.x) * (a.x - b.x) + (a.y - b.y) * (a.y - b.y),
    {
        let dx: i64 = a.x - b.x;
        let dy: i64 = a.y - b.y;
        proof {
            lemma_mul_bounds(dx as int, dx as int, 2 * COORD_LIMIT as int, 2 * COORD_LIMIT as int);
            lemma_mul_bounds(dy as int, dy as int, 2 * COORD_LIMIT as int, 2 * COORD_LIMIT as int);
        }
        (dx as i128) * (dx as i128) + (dy as i128) * (dy as i128)
    }

    /// Exact squared length of the vector.
    pub fn magnitude_squared(self) -> (r: i128)
        requires
            self.bounded(),
        ensures
            r == self.x * self.x + self.y * self.y,
    {
        proof {
            lemma_mul_bounds(self.x as int, self.x as int, COORD_LIMIT as int, COORD_LIMIT as int);
            lemma_mul_bounds(self.y as int, self.y as int, COORD_LIMIT as int, COORD_LIMIT as int);
        }
        (self.x as i128) * (self.x as i128) + (self.y as i128) * (self.y as i128)
    }

    /// Mirrors the vector on a wall whose outward normal is the given axis
    /// unit direction.  For such a normal the mirror formula
    /// `v - 2 (v . n) n` reduces exactly to negating the component along the
    /// normal's axis.
    pub fn reflected_on_normal(self, normal: Vec2) -> (r: Vec2)
        requires
            normal.is_axis_normal(),
            self.x > i64::MIN,
            self.y > i64::MIN,
        ensures
            normal.x != 0 ==> r.x == -self.x && r.y == self.y,
            normal.x == 0 ==> r.x == self.x && r.y == -self.y,
            r.x * r.x + r.y * r.y == self.x * self.x + self.y * self.y,
    {
        let r: Vec2 = if normal.x != 0 {
            Vec2 { x: -self.x, y: self.y }
        } else {
            Vec2 { x: self.x, y: -self.y }
        };
        proof {
            assert(r.x * r.x + r.y * r.y == self.x * self.x + self.y * self.y)
                by (nonlinear_arith)
            requires
                (r.x == -self.x && r.y == self.y) || (r.x == self.x && r.y == -self.y),
            ;
        }
        r
    }
}

/// A directed line segment; used both for wall edges and for the body's
/// travel ray within one step.
#[derive(Clone, Copy, Debug, PartialEq, Eq, Structural)]
pub struct Line {
    pub start: Point,
    pub end: Point,
}

impl Line {
    pub fn new(start: Point, end: Point) -> (r: Line)
        ensures
            r.start == start,
            r.end == end,
    {
        Line { start, end }
    }
}

/// An axis-aligned rectangle with explicit bounds.  Well-formed rectangles
/// satisfy `left <= right` and `bottom <= top` ("top" is the larger y);
/// degenerate rectangles with zero width or height are allowed.
#[derive(Clone, Copy, Debug, PartialEq, Eq, Structural)]
pub struct Rect {
    pub left: i64,
    pub right: i64,
    pub bottom: i64,
    pub top: i64,
}

impl Rect {
    /// The bounds are ordered: zero or positive width and height.
    pub open spec fn well_formed(self) -> bool {
        self.left <= self.right && self.bottom <= self.top
    }

    /// All four bounds lie within [`COORD_LIMIT`].
    pub open spec fn bounded(self) -> bool {
        &&& in_range(self.left as int)
        &&& in_range(self.right as int)
        &&& in_range(self.bottom as int)
        &&& in_range(self.top as int)
    }

    pub fn zero() -> (r: Rect)
        ensures
            r.left == 0 && r.right == 0 && r.bottom == 0 && r.top == 0,
            r.well_formed(),
    {
        Rect { left: 0, right: 0, bottom: 0, top: 0 }
    }

    pub fn from_bounds(left: i64, right: i64, bottom: i64, top: i64) -> (r: Rect)
        requires
            left <= right,
            bottom <= top,
        ensures
            r.left == left && r.right == right && r.bottom == bottom && r.top == top,
            r.well_formed(),
    {
        Rect { left, right, bottom, top }
    }

    pub fn from_xy_width_height(x: i64, y: i64, width: i64, height: i64) -> (r: Rect)
        requires
            0 <= width,
            0 <= height,
            x + width <= i64::MAX,
            y + height <= i64::MAX,
        ensures
            r.left == x && r.right == x + width,
            r.bottom == y && r.top == y + height,
            r.well_formed(),
    {
        Rect { left: x, right: x + width, bottom: y, top: y + height }
    }

    pub fn from_width_height(width: i64, height: i64) -> (r: Rect)
        requires
            0 <= width,
            0 <= height,
        ensures
            r.left == 0 && r.right == width,
            r.bottom == 0 && r.top == height,
            r.well_formed(),
    {
        Rect::from_xy_width_height(0, 0, width, height)
    }

    pub fn from_point(pos: Point, width: i64, height: i64) -> (r: Rect)
        requires
            0 <= width,
            0 <= height,
            pos.x + width <= i64::MAX,
            pos.y + height <= i64::MAX,
        ensures
            r.left == pos.x && r.right == pos.x + width,
            r.bottom == pos.y && r.top == pos.y + height,
            r.well_formed(),
    {
        Rect::from_xy_width_height(pos.x, pos.y, width, height)
    }

    pub fn from_dimension(dim: Vec2) -> (r: Rect)
        requires
            0 <= dim.x,
            0 <= dim.y,
        ensures
            r.left == 0 && r.right == dim.x,
            r.bottom == 0 && r.top == dim.y,
            r.well_formed(),
    {
        Rect::from_xy_width_height(0, 0, dim.x, dim.y)
    }

    pub fn from_point_dimension(pos: Point, dim: Vec2) -> (r: Rect)
        requires
            0 <= dim.x,
            0 <= dim.y,
            pos.x + dim.x <= i64::MAX,
            pos.y + dim.y <= i64::MAX,
        ensures
            r.left == pos.x && r.right == pos.x + dim.x,
            r.bottom == pos.y && r.top == pos.y + dim.y,
            r.well_formed(),
    {
        Rect::from_xy_width_height(pos.x, pos.y, dim.x, dim.y)
    }

    /// The bottom-left corner.
    pub fn pos(&self) -> (r: Point)
        ensures
            r.x == self.left,
            r.y == self.bottom,
    {
        Point { x: self.left, y: self.bottom }
    }

    /// Width and height as a vector.
    pub fn dim(&self) -> (r: Vec2)
        requires
            self.well_formed(),
            self.right - self.left <= i64::MAX,
            self.top - self.bottom <= i64::MAX,
        ensures
            r.x == self.right - self.left,
            r.y == self.top - self.bottom,
    {
        Vec2 { x: self.right - self.left, y: self.top - self.bottom }
    }

    pub fn width(&self) -> (r: i64)
        requires
            self.well_formed(),
            self.right - self.left <= i64::MAX,
            self.top - self.bottom <= i64::MAX,
        ensures
            r == self.right - self.left,
    {
        self.right - self.left
    }

    pub fn height(&self) -> (r: i64)
        requires
            self.well_formed(),
            self.right - self.left <= i64::MAX,
            self.top - self.bottom <= i64::MAX,
        ensures
            r == self.top - self.bottom,
    {
        self.top - self.bottom
    }

    /// The midpoint, rounded down to the grid on each axis.
    pub fn center(&self) -> (r: Point)
        requires
            self.well_formed(),
            self.right - self.left <= i64::MAX,
            self.top - self.bottom <= i64::MAX,
        ensures
            r.x == self.left + (self.right - self.left) / 2,
            r.y == self.bottom + (self.top - self.bottom) / 2,
    {
        let half_w: i64 = (self.right - self.left) / 2;
        let half_h: i64 = (self.top - self.bottom) / 2;
        Point { x: self.left + half_w, y: self.bottom + half_h }
    }

    /// The rectangle shifted by a translation vector.
    pub fn translated_by(self, translation: Vec2) -> (r: Rect)
        requires
            i64::MIN <= self.left + translation.x <= i64::MAX,
            i64::MIN <= self.right + translation.x <= i64::MAX,
            i64::MIN <= self.bottom + translation.y <= i64::MAX,
            i64::MIN <= self.top + translation.y <= i64::MAX,
        ensures
            r.left == self.left + translation.x,
            r.right == self.right + translation.x,
            r.bottom == self.bottom + translation.y,
            r.top == self.top + translation.y,
            self.well_formed() ==> r.well_formed(),
    {
        Rect {
            left: self.left + translation.x,
            right: self.right + translation.x,
            bottom: self.bottom + translation.y,
            top: self.top + translation.y,
        }
    }

    /// The rectangle moved so its bottom-left corner sits at the origin.
    pub fn translated_to_origin(self) -> (r: Rect)
        requires
            self.well_formed(),
            self.right - self.left <= i64::MAX,
            self.top - self.bottom <= i64::MAX,
        ensures
            r.left == 0 && r.bottom == 0,
            r.right == self.right - self.left,
            r.top == self.top - self.bottom,
            r.well_formed(),
    {
        Rect {
            left: 0,
            right: self.right - self.left,
            bottom: 0,
            top: self.top - self.bottom,
        }
    }

    /// The rectangle moved so its bottom-left corner sits at `pos`.
    pub fn translated_to_pos(self, pos: Point) -> (r: Rect)
        requires
            self.well_formed(),
            self.right - self.left <= i64::MAX,
            self.top - self.bottom <= i64::MAX,
            pos.x + (self.right - self.left) <= i64::MAX,
            pos.y + (self.top - self.bottom) <= i64::MAX,
        ensures
            r.left == pos.x && r.bottom == pos.y,
            r.right == pos.x + (self.right - self.left),
            r.top == pos.y + (self.top - self.bottom),
            r.well_formed(),
    {
        self.translated_to_origin().translated_by(pos)
    }

    /// The rectangle shifted so the origin of its own coordinates moves to
    /// the middle: each axis is translated by minus half its extent (rounded
    /// down to the grid).
    pub fn centered(self) -> (r: Rect)
        requires
            self.well_formed(),
            self.right - self.left <= i64::MAX,
            self.top - self.bottom <= i64::MAX,
            i64::MIN <= self.left - (self.right - self.left) / 2,
            i64::MIN <= self.bottom - (self.top - self.bottom) / 2,
        ensures
            r.left == self.left - (self.right - self.left) / 2,
            r.right == self.right - (self.right - self.left) / 2,
            r.bottom == self.bottom - (self.top - self.bottom) / 2,
            r.top == self.top - (self.top - self.bottom) / 2,
            r.well_formed(),
    {
        let half_w: i64 = (self.right - self.left) / 2;
        let half_h: i64 = (self.top - self.bottom) / 2;
        Rect {
            left: self.left - half_w,
            right: self.right - half_w,
            bottom: self.bottom - half_h,
            top: self.top - half_h,
        }
    }

    /// The rectangle scaled from the origin by positive integer factors.
    pub fn scaled_from_origin(self, scale_x: i64, scale_y: i64) -> (r: Rect)
        requires
            0 < scale_x,
            0 < scale_y,
            i64::MIN <= self.left * scale_x <= i64::MAX,
            i64::MIN <= self.right * scale_x <= i64::MAX,
            i64::MIN <= self.bottom * scale_y <= i64::MAX,
            i64::MIN <= self.top * scale_y <= i64::MAX,
        ensures
            r.left == self.left * scale_x,
            r.right == self.right * scale_x,
            r.bottom == self.bottom * scale_y,
            r.top == self.top * scale_y,
            self.well_formed() ==> r.well_formed(),
    {
        let left: i64 = ((self.left as i128) * (scale_x as i128)) as i64;
        let right: i64 = ((self.right as i128) * (scale_x as i128)) as i64;
        let bottom: i64 = ((self.bottom as i128) * (scale_y as i128)) as i64;
        let top: i64 = ((self.top as i128) * (scale_y as i128)) as i64;
        proof {
            assert(self.left <= self.right ==> self.left * scale_x <= self.right * scale_x)
                by (nonlinear_arith)
            requires
                0 < scale_x,
            ;
            assert(self.bottom <= self.top ==> self.bottom * scale_y <= self.top * scale_y)
                by (nonlinear_arith)
            requires
                0 < scale_y,
            ;
        }
        Rect { left, right, bottom, top }
    }

    /// The four border edges as directed segments, in the fixed order
    /// bottom, right, top, left (counter-clockwise).  The sweep test derives
    /// each edge's outward normal from this position, never from the edge
    /// coordinates, so the order is part of the contract.
    pub fn to_border_lines(&self) -> (r: Vec<Line>)
        ensures
            r@.len() == 4,
            r@[0] == (Line {
                start: Point { x: self.left, y: self.bottom },
                end: Point { x: self.right, y: self.bottom },
            }),
            r@[1] == (Line {
                start: Point { x: self.right, y: self.bottom },
                end: Point { x: self.right, y: self.top },
            }),
            r@[2] == (Line {
                start: Point { x: self.right, y: self.top },
                end: Point { x: self.left, y: self.top },
            }),
            r@[3] == (Line {
                start: Point { x: self.left, y: self.top },
                end: Point { x: self.left, y: self.bottom },
            }),
    {
        let mut lines: Vec<Line> = Vec::new();
        lines.push(Line {
            start: Point { x: self.left, y: self.bottom },
            end: Point { x: self.right, y: self.bottom },
        });
        lines.push(Line {
            start: Point { x: self.right, y: self.bottom },
            end: Point { x: self.right, y: self.top },
        });
        lines.push(Line {
            start: Point { x: self.right, y: self.top },
            end: Point { x: self.left, y: self.top },
        });
        lines.push(Line {
            start: Point { x: self.left, y: self.top },
            end: Point { x: self.left, y: self.bottom },
        });
        lines
    }
}

} // verus!
