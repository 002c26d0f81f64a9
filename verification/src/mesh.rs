//! The collision mesh: a named, ordered collection of named rectangular
//! obstacles, and the sweep-cast query that finds the nearest crossing of a
//! travel ray with the radius-expanded boundaries of all obstacles.
//!
//! The crossing test is exact.  A ray from `start` to `end` crosses an
//! axis-aligned expanded segment at the rational ray parameter `t = n / d`,
//! where `n` and `d` are integers derived from the endpoints; candidates are
//! compared by cross-multiplication, so the nearest hit and the documented
//! first-registered-wins tie-break are exact, not epsilon-dependent.

use vstd::prelude::*;

use crate::geom::{in_range, Line, Point, Rect, Vec2, COORD_LIMIT};
use crate::shape::{seg_hi, seg_is_vertical, seg_lo, seg_normal_vec, seg_plane};

verus! {

/// Largest number of shapes a mesh will hold.
pub const MAX_SHAPES: usize = 0x10_0000;

/// Largest magnitude allowed for a sweep ray's start coordinates; wider than
/// [`COORD_LIMIT`] so the resolver can keep sweeping after several
/// reflections have moved the body around.
pub const RAY_LIMIT: i64 = 0x800_0000_0000;

/// A rectangular obstacle; the name is for diagnostics only and plays no
/// part in any geometric query.
#[derive(Clone, Debug)]
pub struct NamedShape {
    pub name: String,
    pub rect: Rect,
}

/// The contact point of a sweep hit and the outward-facing unit normal of
/// the original edge that was struck.
#[derive(Clone, Copy, Debug, PartialEq, Eq, Structural)]
pub struct Intersection {
    pub point: Point,
    pub normal: Vec2,
}

/// The nearest crossing found by a sweep: which shape and which of its four
/// border segments were struck, the contact data, and the exact ray
/// parameter `t_num / t_den` of the crossing.
#[derive(Clone, Copy, Debug, PartialEq, Eq, Structural)]
pub struct SweepResult {
    pub shape_index: usize,
    pub segment_index: usize,
    pub intersection: Intersection,
    pub t_num: i64,
    pub t_den: i64,
}

pub open spec fn sign_of(x: int) -> int {
    if x > 0 {
        1
    } else if x < 0 {
        -1
    } else {
        0
    }
}

pub open spec fn abs_of(x: int) -> int {
    if x >= 0 {
        x
    } else {
        -x
    }
}

/// Truncating division (rounds toward zero), the rounding used to place
/// exact rational contact coordinates on the integer grid.
pub open spec fn div_trunc(a: int, b: int) -> int
    recommends
        b > 0,
{
    if a >= 0 {
        a / b
    } else {
        -((-a) / b)
    }
}

pub open spec fn ray_delta_x(ray: Line) -> int {
    ray.end.x - ray.start.x
}

pub open spec fn ray_delta_y(ray: Line) -> int {
    ray.end.y - ray.start.y
}

/// The ray's displacement along the axis that segment `j` is orthogonal to.
pub open spec fn seg_axis_delta(ray: Line, j: int) -> int {
    if seg_is_vertical(j) {
        ray_delta_x(ray)
    } else {
        ray_delta_y(ray)
    }
}

/// The ray's displacement along the axis the segment spans.
pub open spec fn seg_off_delta(ray: Line, j: int) -> int {
    if seg_is_vertical(j) {
        ray_delta_y(ray)
    } else {
        ray_delta_x(ray)
    }
}

/// The ray start coordinate on the axis that segment `j` is orthogonal to.
pub open spec fn seg_axis_start(ray: Line, j: int) -> int {
    if seg_is_vertical(j) {
        ray.start.x as int
    } else {
        ray.start.y as int
    }
}

/// The ray start coordinate on the axis the segment spans.
pub open spec fn seg_off_start(ray: Line, j: int) -> int {
    if seg_is_vertical(j) {
        ray.start.y as int
    } else {
        ray.start.x as int
    }
}

/// Denominator of the crossing parameter: the magnitude of the ray's
/// displacement toward the segment's plane.
pub open spec fn hit_d(ray: Line, j: int) -> int {
    abs_of(seg_axis_delta(ray, j))
}

/// Numerator of the crossing parameter: the signed gap between the ray
/// start and the segment's plane, oriented along the travel direction.  The
/// crossing happens at ray parameter `hit_n / hit_d`.
pub open spec fn hit_n(ray: Line, s: Rect, r: int, j: int) -> int {
    (seg_plane(s, r, j) - seg_axis_start(ray, j)) * sign_of(seg_axis_delta(ray, j))
}

/// The ray crosses expanded segment `j` of shape `s`: the ray actually
/// advances toward the segment's plane, reaches it within the ray's length
/// (parameter in `[0, 1]`), and passes it inside the segment's span.  A ray
/// parallel to the segment never crosses it.
pub open spec fn seg_crossed(ray: Line, s: Rect, r: int, j: int) -> bool {
    &&& seg_axis_delta(ray, j) != 0
    &&& 0 <= hit_n(ray, s, r, j) <= hit_d(ray, j)
    &&& seg_lo(s, r, j) * hit_d(ray, j) <= seg_off_start(ray, j) * hit_d(ray, j) + hit_n(
        ray,
        s,
        r,
        j,
    ) * seg_off_delta(ray, j)
    &&& seg_off_start(ray, j) * hit_d(ray, j) + hit_n(ray, s, r, j) * seg_off_delta(ray, j)
        <= seg_hi(s, r, j) * hit_d(ray, j)
}

/// Candidate crossings are indexed flat: crossing `k` is segment `k % 4` of
/// shape `k / 4`, so the flat order is exactly shape registration order with
/// border order within a shape.
pub open spec fn flat_rect(shapes: Seq<NamedShape>, k: int) -> Rect {
    shapes[k / 4].rect
}

pub open spec fn flat_crossed(shapes: Seq<NamedShape>, ray: Line, r: int, k: int) -> bool {
    seg_crossed(ray, flat_rect(shapes, k), r, k % 4)
}

pub open spec fn flat_n(shapes: Seq<NamedShape>, ray: Line, r: int, k: int) -> int {
    hit_n(ray, flat_rect(shapes, k), r, k % 4)
}

pub open spec fn flat_d(ray: Line, k: int) -> int {
    hit_d(ray, k % 4)
}

/// The crossing with parameter `n1 / d1` lies strictly earlier along the ray
/// than the one with parameter `n2 / d2` (both denominators positive).
pub open spec fn hit_before(n1: int, d1: int, n2: int, d2: int) -> bool {
    n1 * d2 < n2 * d1
}

/// The winning crossing among flat candidates `0 .. k`: the one with the
/// smallest ray parameter, earliest registered on an exact tie.
pub open spec fn best_upto(shapes: Seq<NamedShape>, ray: Line, r: int, k: int) -> Option<int>
    decreases k,
{
    if k <= 0 {
        None
    } else {
        let prev = best_upto(shapes, ray, r, k - 1);
        let c = k - 1;
        if !flat_crossed(shapes, ray, r, c) {
            prev
        } else {
            match prev {
                None => Some(c),
                Some(b) => if hit_before(
                    flat_n(shapes, ray, r, c),
                    flat_d(ray, c),
                    flat_n(shapes, ray, r, b),
                    flat_d(ray, b),
                ) {
                    Some(c)
                } else {
                    prev
                },
            }
        }
    }
}

/// The winning crossing over the whole mesh, or `None` when the ray crosses
/// no expanded boundary.
pub open spec fn sweep_best(shapes: Seq<NamedShape>, ray: Line, r: int) -> Option<int> {
    best_upto(shapes, ray, r, 4 * shapes.len() as int)
}

/// Transitivity step for exact parameter comparison: if `n1/d1 < n2/d2` and
/// `n2/d3 <= n3/d3` then `n1/d1 < n3/d3`, all denominators positive.
proof fn lemma_hit_before_trans(n1: int, d1: int, n2: int, d2: int, n3: int, d3: int)
    requires
        0 < d1,
        0 < d2,
        0 < d3,
        n1 * d2 < n2 * d1,
        n2 * d3 <= n3 * d2,
    ensures
        n1 * d3 < n3 * d1,
{
    assert(n1 * d3 < n3 * d1) by (nonlinear_arith)
        requires
            0 < d1,
            0 < d2,
            0 < d3,
            n1 * d2 < n2 * d1,
            n2 * d3 <= n3 * d2,
    ;
}

/// A crossed segment always has a positive parameter denominator.
proof fn lemma_crossed_d_pos(shapes: Seq<NamedShape>, ray: Line, r: int, k: int)
    requires
        flat_crossed(shapes, ray, r, k),
    ensures
        flat_d(ray, k) >= 1,
{
}

/// What the winning crossing means: it is a crossing, no crossing lies
/// strictly earlier along the ray, and every earlier-registered crossing
/// lies strictly later (first registered wins exact ties).  `None` means no
/// candidate below `k` is crossed.
pub proof fn lemma_best_upto_char(shapes: Seq<NamedShape>, ray: Line, r: int, k: int)
    ensures
        best_upto(shapes, ray, r, k) is None ==> forall|c: int|
            0 <= c < k ==> !flat_crossed(shapes, ray, r, c),
        best_upto(shapes, ray, r, k) matches Some(b) ==> {
            &&& 0 <= b < k
            &&& flat_crossed(shapes, ray, r, b)
            &&& forall|c: int|
                0 <= c < k && #[trigger] flat_crossed(shapes, ray, r, c) ==> !hit_before(
                    flat_n(shapes, ray, r, c),
                    flat_d(ray, c),
                    flat_n(shapes, ray, r, b),
                    flat_d(ray, b),
                )
            &&& forall|c: int|
                0 <= c < b && #[trigger] flat_crossed(shapes, ray, r, c) ==> hit_before(
                    flat_n(shapes, ray, r, b),
                    flat_d(ray, b),
                    flat_n(shapes, ray, r, c),
                    flat_d(ray, c),
                )
        },
    decreases k,
{
    if k <= 0 {
    } else {
        lemma_best_upto_char(shapes, ray, r, k - 1);
        let c0 = k - 1;
        let prev = best_upto(shapes, ray, r, k - 1);
        if flat_crossed(shapes, ray, r, c0) {
            lemma_crossed_d_pos(shapes, ray, r, c0);
            match prev {
                Option::None => {
                    // c0 is the only crossing below k.
                }
                Option::Some(b) => {
                    lemma_crossed_d_pos(shapes, ray, r, b);
                    let nc0 = flat_n(shapes, ray, r, c0);
                    let dc0 = flat_d(ray, c0);
                    let nb = flat_n(shapes, ray, r, b);
                    let db = flat_d(ray, b);
                    if hit_before(nc0, dc0, nb, db) {
                        // The new candidate wins strictly; it also lies
                        // strictly before every crossing that b did not
                        // lie strictly after.
                        assert forall|c: int|
                            0 <= c < k && #[trigger] flat_crossed(shapes, ray, r, c) implies
                            !hit_before(
                                flat_n(shapes, ray, r, c),
                                flat_d(ray, c),
                                nc0,
                                dc0,
                            ) by {
                            if c < c0 {
                                lemma_crossed_d_pos(shapes, ray, r, c);
                                lemma_hit_before_trans(
                                    nc0,
                                    dc0,
                                    nb,
                                    db,
                                    flat_n(shapes, ray, r, c),
                                    flat_d(ray, c),
                                );
                            }
                        }
                        assert forall|c: int|
                            0 <= c < c0 && #[trigger] flat_crossed(shapes, ray, r, c) implies
                            hit_before(
                                nc0,
                                dc0,
                                flat_n(shapes, ray, r, c),
                                flat_d(ray, c),
                            ) by {
                            lemma_crossed_d_pos(shapes, ray, r, c);
                            lemma_hit_before_trans(
                                nc0,
                                dc0,
                                nb,
                                db,
                                flat_n(shapes, ray, r, c),
                                flat_d(ray, c),
                            );
                        }
                    } else {
                        // b stays the winner; c0 is not strictly earlier.
                    }
                }
            }
        }
    }
}

/// The loop state of the sweep matches the winner among the first `k` flat
/// candidates.
spec fn matches_best(
    found: bool,
    bf: int,
    bn: int,
    bd: int,
    shapes: Seq<NamedShape>,
    ray: Line,
    r: int,
    k: int,
) -> bool {
    match best_upto(shapes, ray, r, k) {
        Option::None => !found,
        Option::Some(b) => {
            &&& found
            &&& bf == b
            &&& bn == flat_n(shapes, ray, r, b)
            &&& bd == flat_d(ray, b)
        },
    }
}

/// The ray's start is within [`RAY_LIMIT`] and its displacement within
/// [`COORD_LIMIT`] on each axis.
pub open spec fn ray_ok(ray: Line) -> bool {
    &&& -RAY_LIMIT <= ray.start.x <= RAY_LIMIT
    &&& -RAY_LIMIT <= ray.start.y <= RAY_LIMIT
    &&& -COORD_LIMIT <= ray_delta_x(ray) <= COORD_LIMIT
    &&& -COORD_LIMIT <= ray_delta_y(ray) <= COORD_LIMIT
}

/// The exact crossing parameter `n / d` of one candidate segment.
#[derive(Clone, Copy)]
struct HitParam {
    n: i64,
    d: i64,
}

/// Tests one expanded segment of one shape against the ray: returns the
/// exact crossing parameter when the ray crosses it, `None` otherwise.
fn seg_candidate(rect: &Rect, radius: i64, ray: Line, j: usize) -> (res: Option<HitParam>)
    requires
        rect.well_formed(),
        rect.bounded(),
        0 < radius <= COORD_LIMIT,
        ray_ok(ray),
        j < 4,
    ensures
        res is Some <==> seg_crossed(ray, *rect, radius as int, j as int),
        res matches Some(hp) ==> {
            &&& hp.n == hit_n(ray, *rect, radius as int, j as int)
            &&& hp.d == hit_d(ray, j as int)
            &&& 0 <= hp.n <= hp.d <= COORD_LIMIT
        },
{
    let vertical: bool = j == 1 || j == 3;
    let plane: i64 = if j == 0 {
        rect.bottom - radius
    } else if j == 1 {
        rect.right + radius
    } else if j == 2 {
        rect.top + radius
    } else {
        rect.left - radius
    };
    let lo: i64 = if vertical {
        rect.bottom - radius
    } else {
        rect.left - radius
    };
    let hi: i64 = if vertical {
        rect.top + radius
    } else {
        rect.right + radius
    };
    let axis_delta: i64 = if vertical {
        ray.end.x - ray.start.x
    } else {
        ray.end.y - ray.start.y
    };
    let off_delta: i64 = if vertical {
        ray.end.y - ray.start.y
    } else {
        ray.end.x - ray.start.x
    };
    let axis_start: i64 = if vertical {
        ray.start.x
    } else {
        ray.start.y
    };
    let off_start: i64 = if vertical {
        ray.start.y
    } else {
        ray.start.x
    };
    let ghost jj: int = j as int;
    proof {
        assert(seg_axis_delta(ray, jj) == axis_delta as int);
        assert(seg_off_delta(ray, jj) == off_delta as int);
        assert(seg_axis_start(ray, jj) == axis_start as int);
        assert(seg_off_start(ray, jj) == off_start as int);
        assert(seg_plane(*rect, radius as int, jj) == plane as int);
        assert(seg_lo(*rect, radius as int, jj) == lo as int);
        assert(seg_hi(*rect, radius as int, jj) == hi as int);
    }
    if axis_delta == 0 {
        return None;
    }
    let d: i64 = if axis_delta > 0 {
        axis_delta
    } else {
        -axis_delta
    };
    let n_wide: i128 = if axis_delta > 0 {
        (plane as i128) - (axis_start as i128)
    } else {
        (axis_start as i128) - (plane as i128)
    };
    proof {
        assert(hit_d(ray, jj) == d as int);
        assert(sign_of(seg_axis_delta(ray, jj)) == if axis_delta > 0 {
            1int
        } else {
            -1int
        });
        assert(hit_n(ray, *rect, radius as int, jj) == n_wide as int) by (nonlinear_arith)
            requires
                hit_n(ray, *rect, radius as int, jj) == (plane as int - axis_start as int)
                    * sign_of(seg_axis_delta(ray, jj)),
                sign_of(seg_axis_delta(ray, jj)) == if axis_delta > 0 {
                    1int
                } else {
                    -1int
                },
                n_wide as int == if axis_delta > 0 {
                    plane as int - axis_start as int
                } else {
                    axis_start as int - plane as int
                },
        ;
    }
    if !(0 <= n_wide && n_wide <= d as i128) {
        return None;
    }
    let n: i64 = n_wide as i64;
    proof {
        crate::geom::lemma_mul_bounds(
            off_start as int,
            d as int,
            RAY_LIMIT as int,
            COORD_LIMIT as int,
        );
        crate::geom::lemma_mul_bounds(
            n as int,
            off_delta as int,
            COORD_LIMIT as int,
            COORD_LIMIT as int,
        );
        crate::geom::lemma_mul_bounds(lo as int, d as int, 2 * COORD_LIMIT as int, COORD_LIMIT as int);
        crate::geom::lemma_mul_bounds(hi as int, d as int, 2 * COORD_LIMIT as int, COORD_LIMIT as int);
    }
    let off_at: i128 = (off_start as i128) * (d as i128) + (n as i128) * (off_delta as i128);
    if (lo as i128) * (d as i128) <= off_at && off_at <= (hi as i128) * (d as i128) {
        Some(HitParam { n, d })
    } else {
        None
    }
}

/// A named, ordered collection of named rectangular obstacles.  It owns no
/// physics state: it is a static query target, rebuilt each step by the
/// caller from the current wall layout.
#[derive(Clone, Debug)]
pub struct CollisionMesh {
    pub name: String,
    pub shapes: Vec<NamedShape>,
}

impl CollisionMesh {
    /// Every registered rectangle is well formed and within the coordinate
    /// limit, and the mesh is not overfull.
    pub open spec fn wf(self) -> bool {
        &&& self.shapes@.len() <= MAX_SHAPES
        &&& forall|i: int|
            0 <= i < self.shapes@.len() ==> (#[trigger] self.shapes@[i]).rect.well_formed()
        &&& forall|i: int|
            0 <= i < self.shapes@.len() ==> (#[trigger] self.shapes@[i]).rect.bounded()
    }

    /// An empty mesh with a diagnostic name.
    pub fn new(name: String) -> (r: CollisionMesh)
        ensures
            r.name == name,
            r.shapes@.len() == 0,
            r.wf(),
    {
        CollisionMesh { name, shapes: Vec::new() }
    }

    /// Registers one named rectangular obstacle at the end of the order.
    pub fn add_rect(&mut self, name: String, rect: Rect)
        requires
            old(self).wf(),
            old(self).shapes@.len() < MAX_SHAPES,
            rect.well_formed(),
            rect.bounded(),
        ensures
            final(self).wf(),
            final(self).name == old(self).name,
            final(self).shapes@ == old(self).shapes@.push((NamedShape { name, rect })),
    {
        self.shapes.push(NamedShape { name, rect });
    }

    /// The number of registered obstacles.
    pub fn shape_count(&self) -> (r: usize)
        ensures
            r == self.shapes@.len(),
    {
        self.shapes.len()
    }

    /// Sweeps a sphere of the given radius along `ray` (start to end) and
    /// returns the nearest crossing of the radius-expanded boundary of any
    /// registered shape, or `None` when the whole ray touches none.
    ///
    /// The winner is the crossing with the smallest exact ray parameter
    /// `t_num / t_den`; on an exact tie the first-registered shape (and
    /// within a shape the earlier border segment) wins.  The contact point
    /// is exact on the struck segment's axis and rounded toward the ray
    /// start on the other axis; the normal is the outward normal of the
    /// original edge that produced the struck segment.
    #[verifier::loop_isolation(false)]
    pub fn sweepcast_sphere(&self, ray: Line, radius: i64) -> (res: Option<SweepResult>)
        requires
            self.wf(),
            0 < radius <= COORD_LIMIT,
            ray_ok(ray),
        ensures
            res is None <==> sweep_best(self.shapes@, ray, radius as int) is None,
            res is None ==> forall|c: int|
                0 <= c < 4 * self.shapes@.len() ==> !flat_crossed(
                    self.shapes@,
                    ray,
                    radius as int,
                    c,
                ),
            res matches Some(h) ==> {
                let b = 4 * h.shape_index as int + h.segment_index as int;
                let s = self.shapes@[h.shape_index as int].rect;
                let j = h.segment_index as int;
                &&& sweep_best(self.shapes@, ray, radius as int) == Some(b)
                &&& h.shape_index < self.shapes@.len()
                &&& h.segment_index < 4
                &&& flat_crossed(self.shapes@, ray, radius as int, b)
                &&& h.t_num == hit_n(ray, s, radius as int, j)
                &&& h.t_den == hit_d(ray, j)
                &&& 0 <= h.t_num <= h.t_den
                &&& 1 <= h.t_den <= COORD_LIMIT
                &&& h.intersection.normal == seg_normal_vec(j)
                &&& (seg_is_vertical(j) ==> h.intersection.point.x == seg_plane(
                    s,
                    radius as int,
                    j,
                ))
                &&& (!seg_is_vertical(j) ==> h.intersection.point.y == seg_plane(
                    s,
                    radius as int,
                    j,
                ))
                &&& (seg_is_vertical(j) ==> h.intersection.point.y == ray.start.y + div_trunc(
                    h.t_num * ray_delta_y(ray),
                    h.t_den as int,
                ))
                &&& (!seg_is_vertical(j) ==> h.intersection.point.x == ray.start.x + div_trunc(
                    h.t_num * ray_delta_x(ray),
                    h.t_den as int,
                ))
                &&& forall|c: int|
                    0 <= c < 4 * self.shapes@.len() && #[trigger] flat_crossed(
                        self.shapes@,
                        ray,
                        radius as int,
                        c,
                    ) ==> !hit_before(
                        flat_n(self.shapes@, ray, radius as int, c),
                        flat_d(ray, c),
                        h.t_num as int,
                        h.t_den as int,
                    )
                &&& forall|c: int|
                    0 <= c < b && #[trigger] flat_crossed(
                        self.shapes@,
                        ray,
                        radius as int,
                        c,
                    ) ==> hit_before(
                        h.t_num as int,
                        h.t_den as int,
                        flat_n(self.shapes@, ray, radius as int, c),
                        flat_d(ray, c),
                    )
            },
    {
        let ghost shapes = self.shapes@;
        let ghost rr: int = radius as int;
        let num_shapes: usize = self.shapes.len();
        let mut found: bool = false;
        let mut best_flat: usize = 0;
        let mut best_n: i64 = 0;
        let mut best_d: i64 = 1;
        let mut i: usize = 0;
        while i < num_shapes
            invariant
                i <= num_shapes,
                matches_best(
                    found,
                    best_flat as int,
                    best_n as int,
                    best_d as int,
                    shapes,
                    ray,
                    rr,
                    4 * i as int,
                ),
                found ==> 0 <= best_n <= best_d <= COORD_LIMIT && best_flat < 4 * num_shapes,
            decreases num_shapes - i,
        {
            let rect: Rect = self.shapes[i].rect;
            let mut j: usize = 0;
            while j < 4
                invariant
                    j <= 4,
                    i < num_shapes,
                    rect == shapes[i as int].rect,
                    matches_best(
                        found,
                        best_flat as int,
                        best_n as int,
                        best_d as int,
                        shapes,
                        ray,
                        rr,
                        4 * i as int + j as int,
                    ),
                    found ==> 0 <= best_n <= best_d <= COORD_LIMIT && best_flat < 4 * num_shapes,
                decreases 4 - j,
            {
                let ghost k: int = 4 * i as int + j as int;
                proof {
                    assert(k / 4 == i as int && k % 4 == j as int) by (nonlinear_arith)
                        requires
                            k == 4 * i as int + j as int,
                            0 <= j < 4,
                            0 <= i,
                    ;
                }
                let cand: Option<HitParam> = seg_candidate(&rect, radius, ray, j);
                proof {
                    assert(flat_rect(shapes, k) == rect);
                    assert(flat_crossed(shapes, ray, rr, k) == (cand is Some));
                    if cand is Some {
                        assert(cand->Some_0.n as int == flat_n(shapes, ray, rr, k));
                        assert(cand->Some_0.d as int == flat_d(ray, k));
                    }
                }
                if let Some(hp) = cand {
                    let n: i64 = hp.n;
                    let d: i64 = hp.d;
                    let take: bool = if !found {
                        true
                    } else {
                        proof {
                            crate::geom::lemma_mul_bounds(
                                n as int,
                                best_d as int,
                                COORD_LIMIT as int,
                                COORD_LIMIT as int,
                            );
                            crate::geom::lemma_mul_bounds(
                                best_n as int,
                                d as int,
                                COORD_LIMIT as int,
                                COORD_LIMIT as int,
                            );
                        }
                        (n as i128) * (best_d as i128) < (best_n as i128) * (d as i128)
                    };
                    if take {
                        found = true;
                        best_flat = 4 * i + j;
                        best_n = n;
                        best_d = d;
                    }
                }
                j = j + 1;
            }
            i = i + 1;
        }
        proof {
            lemma_best_upto_char(shapes, ray, rr, 4 * num_shapes as int);
        }
        if !found {
            return None;
        }
        let win_shape: usize = best_flat / 4;
        let win_seg: usize = best_flat % 4;
        proof {
            assert(win_shape as int == best_flat as int / 4 && win_seg as int == best_flat as int
                % 4);
            assert(win_shape < num_shapes && win_seg < 4) by (nonlinear_arith)
                requires
                    best_flat < 4 * num_shapes,
                    win_shape as int == best_flat as int / 4,
                    win_seg as int == best_flat as int % 4,
            ;
        }
        let rect: Rect = self.shapes[win_shape].rect;
        let vertical: bool = win_seg == 1 || win_seg == 3;
        let plane: i64 = if win_seg == 0 {
            rect.bottom - radius
        } else if win_seg == 1 {
            rect.right + radius
        } else if win_seg == 2 {
            rect.top + radius
        } else {
            rect.left - radius
        };
        let off_start: i64 = if vertical {
            ray.start.y
        } else {
            ray.start.x
        };
        let off_delta: i64 = if vertical {
            ray.end.y - ray.start.y
        } else {
            ray.end.x - ray.start.x
        };
        let off_mag: i64 = if off_delta >= 0 {
            off_delta
        } else {
            -off_delta
        };
        proof {
            crate::geom::lemma_mul_bounds(
                best_n as int,
                off_mag as int,
                COORD_LIMIT as int,
                COORD_LIMIT as int,
            );
        }
        let prod: u128 = (best_n as u128) * (off_mag as u128);
        let quot_wide: u128 = prod / (best_d as u128);
        proof {
            lemma_trunc_quotient_bounds(best_n as int, off_mag as int, best_d as int);
        }
        let quot: i64 = quot_wide as i64;
        let off_coord: i64 = if off_delta >= 0 {
            off_start + quot
        } else {
            off_start - quot
        };
        proof {
            lemma_div_trunc_signed(best_n as int, off_delta as int, best_d as int);
        }
        let point: Point = if vertical {
            Point { x: plane, y: off_coord }
        } else {
            Point { x: off_coord, y: plane }
        };
        let normal: Vec2 = if win_seg == 0 {
            Vec2 { x: 0, y: -1 }
        } else if win_seg == 1 {
            Vec2 { x: 1, y: 0 }
        } else if win_seg == 2 {
            Vec2 { x: 0, y: 1 }
        } else {
            Vec2 { x: -1, y: 0 }
        };
        Some(
            SweepResult {
                shape_index: win_shape,
                segment_index: win_seg,
                intersection: Intersection { point, normal },
                t_num: best_n,
                t_den: best_d,
            },
        )
    }
}

/// With `0 <= n <= d` the truncated quotient `(n * |e|) / d` is bounded by
/// `|e|`, so the rounded contact offset never overshoots the ray.
pub proof fn lemma_trunc_quotient_bounds(n: int, e: int, d: int)
    requires
        0 <= n <= d,
        0 < d,
        0 <= e,
    ensures
        0 <= (n * e) / d <= e,
{
    assert(0 <= n * e && n * e <= e * d) by (nonlinear_arith)
        requires
            0 <= n <= d,
            0 <= e,
    ;
    vstd::arithmetic::div_mod::lemma_div_is_ordered(n * e, e * d, d);
    vstd::arithmetic::div_mod::lemma_div_by_multiple(e, d);
    vstd::arithmetic::div_mod::lemma_div_is_ordered(0, n * e, d);
}

/// Truncating division of the signed product agrees with the sign-split
/// computation on magnitudes.
pub proof fn lemma_div_trunc_signed(n: int, e: int, d: int)
    requires
        0 <= n,
        0 < d,
    ensures
        e >= 0 ==> div_trunc(n * e, d) == (n * e) / d,
        e < 0 ==> div_trunc(n * e, d) == -((n * (-e)) / d),
{
    if e >= 0 {
        assert(n * e >= 0) by (nonlinear_arith)
            requires
                0 <= n,
                0 <= e,
        ;
    } else {
        assert(n * e <= 0 && -(n * e) == n * (-e)) by (nonlinear_arith)
            requires
                0 <= n,
                e < 0,
        ;
        if n * e == 0 {
            assert(div_trunc(n * e, d) == (n * e) / d);
            assert((n * e) / d == 0) by {
                vstd::arithmetic::div_mod::lemma_basic_div(n * e, d);
            }
        }
    }
}

/// Tie-break determinism: when two boundary crossings of the same ray have
/// exactly equal parameters, the sweep never resolves to the later-registered
/// one; the first registered wins, on every run, because the comparison is
/// exact integer arithmetic.
pub proof fn lemma_tie_break_first_wins(
    shapes: Seq<NamedShape>,
    ray: Line,
    r: int,
    c1: int,
    c2: int,
)
    requires
        0 <= c1 < c2 < 4 * shapes.len(),
        flat_crossed(shapes, ray, r, c1),
        flat_crossed(shapes, ray, r, c2),
        flat_n(shapes, ray, r, c1) * flat_d(ray, c2) == flat_n(shapes, ray, r, c2) * flat_d(
            ray,
            c1,
        ),
    ensures
        sweep_best(shapes, ray, r) is Some,
        sweep_best(shapes, ray, r) != Some(c2),
{
    lemma_best_upto_char(shapes, ray, r, 4 * shapes.len() as int);
    match sweep_best(shapes, ray, r) {
        Option::None => {
            assert(!flat_crossed(shapes, ray, r, c1));
        },
        Option::Some(b) => {
            if b == c2 {
                assert(hit_before(
                    flat_n(shapes, ray, r, c2),
                    flat_d(ray, c2),
                    flat_n(shapes, ray, r, c1),
                    flat_d(ray, c1),
                ));
            }
        },
    }
}

/// The four wall rectangles that fence a rectangular play field: one wall
/// along each side of `bounds`, `thickness` units thick, with the top and
/// bottom walls widened to overlap the corners.
pub fn field_border_rects(bounds: Rect, thickness: i64) -> (r: (Rect, Rect, Rect, Rect))
    requires
        bounds.well_formed(),
        bounds.bounded(),
        0 <= thickness,
        in_range(bounds.left - thickness),
        in_range(bounds.right + thickness),
        in_range(bounds.bottom - thickness),
        in_range(bounds.top + thickness),
    ensures
        r.0 == (Rect {
            left: (bounds.left - thickness) as i64,
            right: bounds.left,
            bottom: bounds.bottom,
            top: bounds.top,
        }),
        r.1 == (Rect {
            left: bounds.right,
            right: (bounds.right + thickness) as i64,
            bottom: bounds.bottom,
            top: bounds.top,
        }),
        r.2 == (Rect {
            left: (bounds.left - thickness) as i64,
            right: (bounds.right + thickness) as i64,
            bottom: bounds.top,
            top: (bounds.top + thickness) as i64,
        }),
        r.3 == (Rect {
            left: (bounds.left - thickness) as i64,
            right: (bounds.right + thickness) as i64,
            bottom: (bounds.bottom - thickness) as i64,
            top: bounds.bottom,
        }),
        r.0.well_formed() && r.0.bounded(),
        r.1.well_formed() && r.1.bounded(),
        r.2.well_formed() && r.2.bounded(),
        r.3.well_formed() && r.3.bounded(),
{
    let left_wall: Rect = Rect {
        left: bounds.left - thickness,
        right: bounds.left,
        bottom: bounds.bottom,
        top: bounds.top,
    };
    let right_wall: Rect = Rect {
        left: bounds.right,
        right: bounds.right + thickness,
        bottom: bounds.bottom,
        top: bounds.top,
    };
    let top_wall: Rect = Rect {
        left: bounds.left - thickness,
        right: bounds.right + thickness,
        bottom: bounds.top,
        top: bounds.top + thickness,
    };
    let bottom_wall: Rect = Rect {
        left: bounds.left - thickness,
        right: bounds.right + thickness,
        bottom: bounds.bottom - thickness,
        top: bounds.bottom,
    };
    (left_wall, right_wall, top_wall, bottom_wall)
}

} // verus!
