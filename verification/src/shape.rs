//! Expanded-shape construction (Minkowski sum): grows a rectangle outward by
//! a sphere radius, producing the boundary a sphere's *center point* must
//! cross to collide with the original rectangle's border.
//!
//! Each of the four original edges yields a parallel segment offset outward
//! by the radius along that edge's outward normal, with endpoints extended to
//! meet the neighbouring offsets at the corners.  Every produced segment is
//! tagged with the normal of the original edge it derives from, since that is
//! the physically correct reflection normal.  Near a corner this square
//! expansion still stops the body at a safe position; only the reflection
//! normal exactly at the corner singularity is approximate.

use vstd::prelude::*;

use crate::geom::{Line, Point, Rect, Vec2, COORD_LIMIT};

verus! {

/// Segment positions follow the border order of [`Rect::to_border_lines`]:
/// bottom, right, top, left.  Positions 1 and 3 are the vertical segments.
pub open spec fn seg_is_vertical(j: int) -> bool {
    j == 1 || j == 3
}

/// The fixed coordinate of expanded segment `j`: its x for a vertical
/// segment, its y for a horizontal one.
pub open spec fn seg_plane(s: Rect, r: int, j: int) -> int {
    if j == 0 {
        s.bottom - r
    } else if j == 1 {
        s.right + r
    } else if j == 2 {
        s.top + r
    } else {
        s.left - r
    }
}

/// Lower end of the span the segment covers on its free axis.
pub open spec fn seg_lo(s: Rect, r: int, j: int) -> int {
    if seg_is_vertical(j) {
        s.bottom - r
    } else {
        s.left - r
    }
}

/// Upper end of the span the segment covers on its free axis.
pub open spec fn seg_hi(s: Rect, r: int, j: int) -> int {
    if seg_is_vertical(j) {
        s.top + r
    } else {
        s.right + r
    }
}

/// Outward normal of the original edge that produced segment `j`.
pub open spec fn seg_normal_vec(j: int) -> Vec2 {
    if j == 0 {
        Vec2 { x: 0i64, y: -1i64 }
    } else if j == 1 {
        Vec2 { x: 1i64, y: 0i64 }
    } else if j == 2 {
        Vec2 { x: 0i64, y: 1i64 }
    } else {
        Vec2 { x: -1i64, y: 0i64 }
    }
}

/// One segment of an expanded boundary together with the reflection normal
/// of the original edge it derives from.
#[derive(Clone, Copy, Debug, PartialEq, Eq, Structural)]
pub struct BoundarySegment {
    pub line: Line,
    pub normal: Vec2,
}

/// The Minkowski sum of a rectangle and a sphere of the given radius,
/// reduced to the four boundary segments a moving center point can cross.
#[derive(Clone, Copy, Debug, PartialEq, Eq, Structural)]
pub struct RectSphereSum {
    pub rect: Rect,
    pub radius: i64,
}

impl RectSphereSum {
    /// The source rectangle is well formed and everything is within the
    /// coordinate limit, so the expanded bounds stay representable.
    pub open spec fn wf(self) -> bool {
        &&& self.rect.well_formed()
        &&& self.rect.bounded()
        &&& 0 < self.radius <= COORD_LIMIT
    }

    pub fn new(rect: &Rect, radius: i64) -> (r: RectSphereSum)
        requires
            rect.well_formed(),
            rect.bounded(),
            0 < radius <= COORD_LIMIT,
        ensures
            r.rect == *rect,
            r.radius == radius,
            r.wf(),
    {
        RectSphereSum { rect: *rect, radius }
    }

    /// The four expanded boundary segments in border order (bottom, right,
    /// top, left), each tagged with the normal of the original edge.
    pub fn segments(&self) -> (r: Vec<BoundarySegment>)
        requires
            self.wf(),
        ensures
            r@.len() == 4,
            forall|j: int|
                0 <= j < 4 ==> (#[trigger] r@[j]).normal == seg_normal_vec(j),
            forall|j: int|
                0 <= j < 4 && seg_is_vertical(j) ==> {
                    let rr = #[trigger] r@[j];
                    &&& rr.line.start.x == seg_plane(self.rect, self.radius as int, j)
                    &&& rr.line.end.x == seg_plane(self.rect, self.radius as int, j)
                },
            forall|j: int|
                0 <= j < 4 && !seg_is_vertical(j) ==> {
                    let rr = #[trigger] r@[j];
                    &&& rr.line.start.y == seg_plane(self.rect, self.radius as int, j)
                    &&& rr.line.end.y == seg_plane(self.rect, self.radius as int, j)
                },
            r@[0].line.start.x == self.rect.left - self.radius,
            r@[0].line.end.x == self.rect.right + self.radius,
            r@[1].line.start.y == self.rect.bottom - self.radius,
            r@[1].line.end.y == self.rect.top + self.radius,
            r@[2].line.start.x == self.rect.right + self.radius,
            r@[2].line.end.x == self.rect.left - self.radius,
            r@[3].line.start.y == self.rect.top + self.radius,
            r@[3].line.end.y == self.rect.bottom - self.radius,
    {
        let lo_x: i64 = self.rect.left - self.radius;
        let hi_x: i64 = self.rect.right + self.radius;
        let lo_y: i64 = self.rect.bottom - self.radius;
        let hi_y: i64 = self.rect.top + self.radius;
        let mut segs: Vec<BoundarySegment> = Vec::new();
        segs.push(BoundarySegment {
            line: Line {
                start: Point { x: lo_x, y: lo_y },
                end: Point { x: hi_x, y: lo_y },
            },
            normal: Vec2 { x: 0, y: -1 },
        });
        segs.push(BoundarySegment {
            line: Line {
                start: Point { x: hi_x, y: lo_y },
                end: Point { x: hi_x, y: hi_y },
            },
            normal: Vec2 { x: 1, y: 0 },
        });
        segs.push(BoundarySegment {
            line: Line {
                start: Point { x: hi_x, y: hi_y },
                end: Point { x: lo_x, y: hi_y },
            },
            normal: Vec2 { x: 0, y: 1 },
        });
        segs.push(BoundarySegment {
            line: Line {
                start: Point { x: lo_x, y: hi_y },
                end: Point { x: lo_x, y: lo_y },
            },
            normal: Vec2 { x: -1, y: 0 },
        });
        segs
    }

    /// The expanded boundary as plain segments for a line renderer; the same
    /// offsets as [`RectSphereSum::segments`], without the normals.
    pub fn to_lines(&self) -> (r: Vec<Line>)
        requires
            self.wf(),
        ensures
            r@.len() == 4,
            r@[0] == (Line {
                start: Point { x: (self.rect.left - self.radius) as i64, y: (self.rect.bottom - self.radius) as i64 },
                end: Point { x: (self.rect.right + self.radius) as i64, y: (self.rect.bottom - self.radius) as i64 },
            }),
            r@[1] == (Line {
                start: Point { x: (self.rect.right + self.radius) as i64, y: (self.rect.bottom - self.radius) as i64 },
                end: Point { x: (self.rect.right + self.radius) as i64, y: (self.rect.top + self.radius) as i64 },
            }),
            r@[2] == (Line {
                start: Point { x: (self.rect.right + self.radius) as i64, y: (self.rect.top + self.radius) as i64 },
                end: Point { x: (self.rect.left - self.radius) as i64, y: (self.rect.top + self.radius) as i64 },
            }),
            r@[3] == (Line {
                start: Point { x: (self.rect.left - self.radius) as i64, y: (self.rect.top + self.radius) as i64 },
                end: Point { x: (self.rect.left - self.radius) as i64, y: (self.rect.bottom - self.radius) as i64 },
            }),
    {
        let segs = self.segments();
        let mut lines: Vec<Line> = Vec::new();
        lines.push(segs[0].line);
        lines.push(segs[1].line);
        lines.push(segs[2].line);
        lines.push(segs[3].line);
        lines
    }
}

} // verus!
