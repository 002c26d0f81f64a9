//! The elastic response resolver: advances a moving spherical body by its
//! velocity for one time step, repeatedly detecting the nearest wall
//! crossing with the sweep-cast query and reflecting off it, until the
//! step's travel is consumed or the reflection limit is reached.
//!
//! Collisions within a step are resolved strictly in chronological order of
//! contact.  Each reflection is perfectly elastic: the velocity component
//! along the struck wall's normal is negated exactly, so the squared speed
//! is preserved to the last unit.  Before each reflection the body is moved
//! to a stop [`COLLISION_SAFETY_MARGIN`] grid units short of the struck
//! plane (measured along the plane's normal axis, never past the contact,
//! and never backward), so it never comes to rest on a boundary.

use vstd::prelude::*;

use crate::geom::{lemma_mul_bounds, Line, Point, Vec2, COORD_LIMIT};
use crate::mesh::{
    abs_of, div_trunc, flat_crossed, flat_d, flat_n, flat_rect, hit_before, lemma_best_upto_char,
    lemma_div_trunc_signed, lemma_trunc_quotient_bounds, ray_ok, seg_axis_delta, seg_off_delta,
    sign_of, sweep_best, CollisionMesh, NamedShape, SweepResult, RAY_LIMIT,
};
use crate::shape::{seg_is_vertical, seg_plane};

verus! {

/// How far short of a struck plane the body is stopped, in grid units,
/// measured along the plane's normal axis.  Callers pick the grid scale;
/// with 1024 grid units per world unit this margin is 1/64 world unit.
pub const COLLISION_SAFETY_MARGIN: i64 = 16;

/// A third collision within one step aborts resolution with an error.
pub const MAX_COLLISION_ITERATIONS: u32 = 3;

/// The only failure the resolver produces: the bounded reflection loop
/// found [`MAX_COLLISION_ITERATIONS`] collisions within a single step.
/// Recoverable by the caller (freeze physics, surface the message); never a
/// panic.
#[derive(Clone, Copy, Debug, PartialEq, Eq, Structural)]
pub enum CollisionError {
    ResolutionOverflow,
}

impl CollisionError {
    /// A human-readable diagnostic for display or logging.
    pub fn message(&self) -> (r: &'static str)
        ensures
            r@ == "collision loop exceeded its iteration limit within one frame"@,
    {
        "collision loop exceeded its iteration limit within one frame"
    }
}

/// The travel ray of one resolver step: from the current position along the
/// remaining displacement.
pub open spec fn ray_of(px: int, py: int, dx: int, dy: int) -> Line {
    Line {
        start: Point { x: px as i64, y: py as i64 },
        end: Point { x: (px + dx) as i64, y: (py + dy) as i64 },
    }
}

/// Axis advance toward a struck plane whose crossing sits `n` numerator
/// units out: stop [`COLLISION_SAFETY_MARGIN`] short, and never move
/// backward when the body already stands closer than the margin.
pub open spec fn step_adv(n: int) -> int {
    if n >= COLLISION_SAFETY_MARGIN {
        n - COLLISION_SAFETY_MARGIN
    } else {
        0
    }
}

/// One reflection sub-step at the winning crossing `b`: the body advances to
/// just short of the contact, and position, remaining displacement and
/// velocity are mirrored on the struck wall's normal axis.  Returns
/// `(px, py, dx, dy, vx, vy)` after the sub-step.
pub open spec fn bounce_step(
    shapes: Seq<NamedShape>,
    r: int,
    px: int,
    py: int,
    dx: int,
    dy: int,
    vx: int,
    vy: int,
    b: int,
) -> (int, int, int, int, int, int) {
    let ray = ray_of(px, py, dx, dy);
    let n = flat_n(shapes, ray, r, b);
    let d = flat_d(ray, b);
    let adv = step_adv(n);
    if seg_is_vertical(b % 4) {
        let sgn = sign_of(dx);
        let q = div_trunc(adv * dy, d);
        (px + adv * sgn, py + q, -(dx - adv * sgn), dy - q, -vx, vy)
    } else {
        let sgn = sign_of(dy);
        let q = div_trunc(adv * dx, d);
        (px + q, py + adv * sgn, dx - q, -(dy - adv * sgn), vx, -vy)
    }
}

/// The resolver's outcome, defined step by step: slide along the remaining
/// displacement until the nearest crossing, reflect, and repeat;
/// `bounces` counts the reflections already taken in this step.  `None`
/// stands for the iteration-overflow error, raised when a reflection is
/// found after `MAX_COLLISION_ITERATIONS - 1` have already been resolved.
pub open spec fn resolve_rec(
    shapes: Seq<NamedShape>,
    r: int,
    px: int,
    py: int,
    dx: int,
    dy: int,
    vx: int,
    vy: int,
    bounces: int,
) -> Option<(int, int, int, int)>
    decreases MAX_COLLISION_ITERATIONS - 1 - bounces,
{
    let ray = ray_of(px, py, dx, dy);
    match sweep_best(shapes, ray, r) {
        None => Some((px + dx, py + dy, vx, vy)),
        Some(b) => if bounces >= MAX_COLLISION_ITERATIONS - 1 {
            None
        } else {
            let s2 = bounce_step(shapes, r, px, py, dx, dy, vx, vy, b);
            resolve_rec(shapes, r, s2.0, s2.1, s2.2, s2.3, s2.4, s2.5, bounces + 1)
        },
    }
}

/// The whole outcome of one resolver call from the caller's inputs.
pub open spec fn resolve_spec(
    shapes: Seq<NamedShape>,
    r: int,
    pos: Point,
    vel: Vec2,
    delta_time: int,
) -> Option<(int, int, int, int)> {
    resolve_rec(
        shapes,
        r,
        pos.x as int,
        pos.y as int,
        vel.x * delta_time,
        vel.y * delta_time,
        vel.x as int,
        vel.y as int,
        0,
    )
}

/// The body's mutable state within one resolver call: position, remaining
/// displacement for this step, and velocity.
struct BodyState {
    px: i64,
    py: i64,
    dx: i64,
    dy: i64,
    vx: i64,
    vy: i64,
}

/// One reflection sub-step, exactly as [`bounce_step`] describes it:
/// advance to just short of the contact plane, mirror the remaining
/// displacement and the velocity on the struck wall's normal axis.
fn apply_bounce(
    st: &BodyState,
    h: &SweepResult,
    ray: Line,
    Ghost(shapes): Ghost<Seq<NamedShape>>,
    Ghost(rr): Ghost<int>,
) -> (r2: BodyState)
    requires
        ray == ray_of(st.px as int, st.py as int, st.dx as int, st.dy as int),
        -COORD_LIMIT <= st.dx <= COORD_LIMIT,
        -COORD_LIMIT <= st.dy <= COORD_LIMIT,
        -COORD_LIMIT <= st.vx <= COORD_LIMIT,
        -COORD_LIMIT <= st.vy <= COORD_LIMIT,
        -RAY_LIMIT <= st.px <= RAY_LIMIT,
        -RAY_LIMIT <= st.py <= RAY_LIMIT,
        h.segment_index < 4,
        flat_crossed(
            shapes,
            ray,
            rr,
            4 * h.shape_index as int + h.segment_index as int,
        ),
        h.t_num as int == flat_n(
            shapes,
            ray,
            rr,
            4 * h.shape_index as int + h.segment_index as int,
        ),
        h.t_den as int == flat_d(ray, 4 * h.shape_index as int + h.segment_index as int),
        0 <= h.t_num <= h.t_den,
        1 <= h.t_den <= COORD_LIMIT,
    ensures
        ({
            let b = 4 * h.shape_index as int + h.segment_index as int;
            let s2 = bounce_step(
                shapes,
                rr,
                st.px as int,
                st.py as int,
                st.dx as int,
                st.dy as int,
                st.vx as int,
                st.vy as int,
                b,
            );
            &&& r2.px as int == s2.0
            &&& r2.py as int == s2.1
            &&& r2.dx as int == s2.2
            &&& r2.dy as int == s2.3
            &&& r2.vx as int == s2.4
            &&& r2.vy as int == s2.5
        }),
        -COORD_LIMIT <= r2.dx <= COORD_LIMIT,
        -COORD_LIMIT <= r2.dy <= COORD_LIMIT,
        -COORD_LIMIT <= r2.px - st.px <= COORD_LIMIT,
        -COORD_LIMIT <= r2.py - st.py <= COORD_LIMIT,
        r2.vx as int == st.vx as int || r2.vx as int == -(st.vx as int),
        r2.vy as int == st.vy as int || r2.vy as int == -(st.vy as int),
        r2.vx * r2.vx + r2.vy * r2.vy == st.vx * st.vx + st.vy * st.vy,
{
    let ghost b: int = 4 * h.shape_index as int + h.segment_index as int;
    proof {
        assert(b % 4 == h.segment_index as int) by (nonlinear_arith)
            requires
                b == 4 * h.shape_index as int + h.segment_index as int,
                0 <= h.segment_index < 4,
                0 <= h.shape_index,
        ;
    }
    let n: i64 = h.t_num;
    let d: i64 = h.t_den;
    let adv: i64 = if n >= COLLISION_SAFETY_MARGIN {
        n - COLLISION_SAFETY_MARGIN
    } else {
        0
    };
    proof {
        assert(adv as int == step_adv(n as int));
        assert(0 <= adv <= d);
    }
    let vertical: bool = h.segment_index == 1 || h.segment_index == 3;
    if vertical {
        proof {
            assert(seg_is_vertical(b % 4));
            assert(seg_axis_delta(ray, b % 4) == st.dx as int);
            assert(seg_off_delta(ray, b % 4) == st.dy as int);
            assert(st.dx != 0);
            assert(d as int == abs_of(st.dx as int));
        }
        let off_mag: i64 = if st.dy >= 0 {
            st.dy
        } else {
            -st.dy
        };
        proof {
            lemma_mul_bounds(adv as int, off_mag as int, COORD_LIMIT as int, COORD_LIMIT as int);
            lemma_trunc_quotient_bounds(adv as int, off_mag as int, d as int);
            lemma_div_trunc_signed(adv as int, st.dy as int, d as int);
        }
        let q_mag: i64 = (((adv as u128) * (off_mag as u128)) / (d as u128)) as i64;
        let q: i64 = if st.dy >= 0 {
            q_mag
        } else {
            -q_mag
        };
        proof {
            assert(q as int == div_trunc(adv as int * st.dy as int, d as int));
            assert(adv as int * 1 == adv as int && adv as int * -1 == -(adv as int));
        }
        let r2: BodyState = if st.dx > 0 {
            BodyState {
                px: st.px + adv,
                py: st.py + q,
                dx: -(st.dx - adv),
                dy: st.dy - q,
                vx: -st.vx,
                vy: st.vy,
            }
        } else {
            BodyState {
                px: st.px - adv,
                py: st.py + q,
                dx: -(st.dx + adv),
                dy: st.dy - q,
                vx: -st.vx,
                vy: st.vy,
            }
        };
        proof {
            assert(r2.vx * r2.vx + r2.vy * r2.vy == st.vx * st.vx + st.vy * st.vy)
                by (nonlinear_arith)
                requires
                    r2.vx as int == -(st.vx as int),
                    r2.vy == st.vy,
            ;
        }
        r2
    } else {
        proof {
            assert(!seg_is_vertical(b % 4));
            assert(seg_axis_delta(ray, b % 4) == st.dy as int);
            assert(seg_off_delta(ray, b % 4) == st.dx as int);
            assert(st.dy != 0);
            assert(d as int == abs_of(st.dy as int));
        }
        let off_mag: i64 = if st.dx >= 0 {
            st.dx
        } else {
            -st.dx
        };
        proof {
            lemma_mul_bounds(adv as int, off_mag as int, COORD_LIMIT as int, COORD_LIMIT as int);
            lemma_trunc_quotient_bounds(adv as int, off_mag as int, d as int);
            lemma_div_trunc_signed(adv as int, st.dx as int, d as int);
        }
        let q_mag: i64 = (((adv as u128) * (off_mag as u128)) / (d as u128)) as i64;
        let q: i64 = if st.dx >= 0 {
            q_mag
        } else {
            -q_mag
        };
        proof {
            assert(q as int == div_trunc(adv as int * st.dx as int, d as int));
            assert(adv as int * 1 == adv as int && adv as int * -1 == -(adv as int));
        }
        let r2: BodyState = if st.dy > 0 {
            BodyState {
                px: st.px + q,
                py: st.py + adv,
                dx: st.dx - q,
                dy: -(st.dy - adv),
                vx: st.vx,
                vy: -st.vy,
            }
        } else {
            BodyState {
                px: st.px + q,
                py: st.py - adv,
                dx: st.dx - q,
                dy: -(st.dy + adv),
                vx: st.vx,
                vy: -st.vy,
            }
        };
        proof {
            assert(r2.vx * r2.vx + r2.vy * r2.vy == st.vx * st.vx + st.vy * st.vy)
                by (nonlinear_arith)
                requires
                    r2.vy as int == -(st.vy as int),
                    r2.vx == st.vx,
            ;
        }
        r2
    }
}

/// Advances the body at `pos` with velocity `vel` (grid units per tick) for
/// `delta_time` ticks through the mesh, resolving every collision on the
/// way in chronological order with exact elastic reflections.
///
/// Returns the new position and velocity; the mesh and the arguments are
/// never mutated.  Returns `Err(CollisionError::ResolutionOverflow)` exactly
/// when a [`MAX_COLLISION_ITERATIONS`]-th collision occurs within this one
/// step, which is the resolver's only failure; the outcome (including when
/// the error is owed) is pinned exactly by [`resolve_spec`].
///
/// On success the returned speed is exactly conserved:
/// `|new velocity|^2 == |velocity|^2`, whatever number of reflections
/// happened (each one negates a single velocity component).
#[verifier::loop_isolation(false)]
pub fn move_sphere_with_full_elastic_collision(
    collision_mesh: &CollisionMesh,
    pos: Point,
    vel: Vec2,
    sphere_radius: i64,
    delta_time: i64,
) -> (res: Result<(Point, Vec2), CollisionError>)
    requires
        collision_mesh.wf(),
        0 < sphere_radius <= COORD_LIMIT,
        0 <= delta_time,
        pos.bounded(),
        vel.bounded(),
        -COORD_LIMIT <= vel.x * delta_time <= COORD_LIMIT,
        -COORD_LIMIT <= vel.y * delta_time <= COORD_LIMIT,
    ensures
        res matches Ok(out) ==> {
            &&& resolve_spec(collision_mesh.shapes@, sphere_radius as int, pos, vel, delta_time as int)
                == Some((out.0.x as int, out.0.y as int, out.1.x as int, out.1.y as int))
            &&& out.1.x * out.1.x + out.1.y * out.1.y == vel.x * vel.x + vel.y * vel.y
            &&& out.1.bounded()
        },
        res matches Err(e) ==> {
            &&& resolve_spec(collision_mesh.shapes@, sphere_radius as int, pos, vel, delta_time as int)
                is None
            &&& e == CollisionError::ResolutionOverflow
        },
{
    let ghost shapes = collision_mesh.shapes@;
    let ghost rr: int = sphere_radius as int;
    let mut st: BodyState = BodyState {
        px: pos.x,
        py: pos.y,
        dx: ((vel.x as i128) * (delta_time as i128)) as i64,
        dy: ((vel.y as i128) * (delta_time as i128)) as i64,
        vx: vel.x,
        vy: vel.y,
    };
    let mut bounces: u32 = 0;
    let ghost goal: Option<(int, int, int, int)> = resolve_spec(
        shapes,
        rr,
        pos,
        vel,
        delta_time as int,
    );
    loop
        invariant
            bounces <= MAX_COLLISION_ITERATIONS - 1,
            -COORD_LIMIT <= st.dx <= COORD_LIMIT,
            -COORD_LIMIT <= st.dy <= COORD_LIMIT,
            bounces == 0 ==> -COORD_LIMIT <= st.px <= COORD_LIMIT && -COORD_LIMIT <= st.py
                <= COORD_LIMIT,
            bounces == 1 ==> -2 * COORD_LIMIT <= st.px <= 2 * COORD_LIMIT && -2 * COORD_LIMIT
                <= st.py <= 2 * COORD_LIMIT,
            bounces == 2 ==> -3 * COORD_LIMIT <= st.px <= 3 * COORD_LIMIT && -3 * COORD_LIMIT
                <= st.py <= 3 * COORD_LIMIT,
            -COORD_LIMIT <= st.vx <= COORD_LIMIT,
            -COORD_LIMIT <= st.vy <= COORD_LIMIT,
            st.vx * st.vx + st.vy * st.vy == vel.x * vel.x + vel.y * vel.y,
            resolve_rec(
                shapes,
                rr,
                st.px as int,
                st.py as int,
                st.dx as int,
                st.dy as int,
                st.vx as int,
                st.vy as int,
                bounces as int,
            ) == goal,
        decreases MAX_COLLISION_ITERATIONS - bounces,
    {
        let ray: Line = Line {
            start: Point { x: st.px, y: st.py },
            end: Point { x: st.px + st.dx, y: st.py + st.dy },
        };
        proof {
            assert(ray_of(st.px as int, st.py as int, st.dx as int, st.dy as int) == ray);
            assert(ray_ok(ray));
        }
        match collision_mesh.sweepcast_sphere(ray, sphere_radius) {
            None => {
                let out_pos: Point = Point { x: st.px + st.dx, y: st.py + st.dy };
                let out_vel: Vec2 = Vec2 { x: st.vx, y: st.vy };
                return Ok((out_pos, out_vel));
            },
            Some(h) => {
                if bounces >= MAX_COLLISION_ITERATIONS - 1 {
                    return Err(CollisionError::ResolutionOverflow);
                }
                st = apply_bounce(&st, &h, ray, Ghost(shapes), Ghost(rr));
                bounces = bounces + 1;
            },
        }
    }
}

/// Speed conservation: whatever number of in-step reflections the resolver
/// takes, a successful outcome carries a velocity of exactly the squared
/// magnitude it started with, because every reflection negates exactly one
/// velocity component.
pub proof fn lemma_speed_conservation(
    shapes: Seq<NamedShape>,
    r: int,
    px: int,
    py: int,
    dx: int,
    dy: int,
    vx: int,
    vy: int,
    bounces: int,
)
    ensures
        resolve_rec(shapes, r, px, py, dx, dy, vx, vy, bounces) matches Some(out) ==> out.2
            * out.2 + out.3 * out.3 == vx * vx + vy * vy,
    decreases MAX_COLLISION_ITERATIONS - 1 - bounces,
{
    let ray = ray_of(px, py, dx, dy);
    match sweep_best(shapes, ray, r) {
        Option::None => {},
        Option::Some(b) => {
            if bounces >= MAX_COLLISION_ITERATIONS - 1 {
            } else {
                let s2 = bounce_step(shapes, r, px, py, dx, dy, vx, vy, b);
                lemma_speed_conservation(
                    shapes,
                    r,
                    s2.0,
                    s2.1,
                    s2.2,
                    s2.3,
                    s2.4,
                    s2.5,
                    bounces + 1,
                );
                assert(s2.4 * s2.4 + s2.5 * s2.5 == vx * vx + vy * vy) by (nonlinear_arith)
                    requires
                        (s2.4 == -vx && s2.5 == vy) || (s2.4 == vx && s2.5 == -vy),
                ;
            }
        },
    }
}

/// Pass-through when clear: when the step's whole travel ray crosses no
/// expanded boundary of any registered shape, the body ends exactly at
/// `position + displacement` with its velocity unchanged.
pub proof fn lemma_pass_through_when_clear(
    shapes: Seq<NamedShape>,
    r: int,
    px: int,
    py: int,
    dx: int,
    dy: int,
    vx: int,
    vy: int,
)
    requires
        forall|c: int|
            0 <= c < 4 * shapes.len() ==> !flat_crossed(shapes, ray_of(px, py, dx, dy), r, c),
    ensures
        resolve_rec(shapes, r, px, py, dx, dy, vx, vy, 0) == Some((px + dx, py + dy, vx, vy)),
{
    let ray = ray_of(px, py, dx, dy);
    lemma_best_upto_char(shapes, ray, r, 4 * shapes.len() as int);
    match sweep_best(shapes, ray, r) {
        Option::None => {},
        Option::Some(b) => {
            assert(flat_crossed(shapes, ray, r, b));
            assert(false);
        },
    }
}

/// No tunneling: in a reflection sub-step whose nearest crossing starts at
/// least the safety margin away, the body stops exactly the safety margin
/// short of the struck plane, measured along that plane's normal axis, and
/// the consumed ray parameter `adv / d` stays strictly below the parameter
/// of every boundary crossing of the ray, so the travelled sub-path reaches
/// no boundary.
pub proof fn lemma_no_tunneling_step(
    shapes: Seq<NamedShape>,
    r: int,
    px: int,
    py: int,
    dx: int,
    dy: int,
    vx: int,
    vy: int,
    b: int,
)
    requires
        -RAY_LIMIT <= px <= RAY_LIMIT,
        -RAY_LIMIT <= py <= RAY_LIMIT,
        -COORD_LIMIT <= dx <= COORD_LIMIT,
        -COORD_LIMIT <= dy <= COORD_LIMIT,
        sweep_best(shapes, ray_of(px, py, dx, dy), r) == Some(b),
        flat_n(shapes, ray_of(px, py, dx, dy), r, b) >= COLLISION_SAFETY_MARGIN,
    ensures
        ({
            let ray = ray_of(px, py, dx, dy);
            let n = flat_n(shapes, ray, r, b);
            let d = flat_d(ray, b);
            let adv = step_adv(n);
            let s2 = bounce_step(shapes, r, px, py, dx, dy, vx, vy, b);
            let plane = seg_plane(flat_rect(shapes, b), r, b % 4);
            &&& (seg_is_vertical(b % 4) ==> abs_of(plane - s2.0) == COLLISION_SAFETY_MARGIN)
            &&& (!seg_is_vertical(b % 4) ==> abs_of(plane - s2.1) == COLLISION_SAFETY_MARGIN)
            &&& forall|c: int|
                0 <= c < 4 * shapes.len() && #[trigger] flat_crossed(shapes, ray, r, c) ==> adv
                    * flat_d(ray, c) < flat_n(shapes, ray, r, c) * d
        }),
{
    let ray = ray_of(px, py, dx, dy);
    let n = flat_n(shapes, ray, r, b);
    let d = flat_d(ray, b);
    let adv = step_adv(n);
    lemma_best_upto_char(shapes, ray, r, 4 * shapes.len() as int);
    assert(flat_crossed(shapes, ray, r, b));
    let jj = b % 4;
    if seg_is_vertical(jj) {
        assert(seg_axis_delta(ray, jj) == dx && seg_axis_delta(ray, jj) != 0);
        assert(crate::mesh::seg_axis_start(ray, jj) == px);
        assert(n == (seg_plane(flat_rect(shapes, b), r, jj) - px) * sign_of(dx));
        if dx > 0 {
            assert(n == seg_plane(flat_rect(shapes, b), r, jj) - px);
        } else {
            assert(n == -(seg_plane(flat_rect(shapes, b), r, jj) - px)) by (nonlinear_arith)
                requires
                    n == (seg_plane(flat_rect(shapes, b), r, jj) - px) * sign_of(dx),
                    sign_of(dx) == -1,
            ;
            assert(adv * -1 == -adv);
        }
    } else {
        assert(seg_axis_delta(ray, jj) == dy && seg_axis_delta(ray, jj) != 0);
        assert(crate::mesh::seg_axis_start(ray, jj) == py);
        assert(n == (seg_plane(flat_rect(shapes, b), r, jj) - py) * sign_of(dy));
        if dy > 0 {
            assert(n == seg_plane(flat_rect(shapes, b), r, jj) - py);
        } else {
            assert(n == -(seg_plane(flat_rect(shapes, b), r, jj) - py)) by (nonlinear_arith)
                requires
                    n == (seg_plane(flat_rect(shapes, b), r, jj) - py) * sign_of(dy),
                    sign_of(dy) == -1,
            ;
            assert(adv * -1 == -adv);
        }
    }
    assert forall|c: int|
        0 <= c < 4 * shapes.len() && #[trigger] flat_crossed(shapes, ray, r, c) implies adv
            * flat_d(ray, c) < flat_n(shapes, ray, r, c) * d by {
        let nc = flat_n(shapes, ray, r, c);
        let dc = flat_d(ray, c);
        assert(dc >= 1);
        assert(!hit_before(nc, dc, n, d));
        vstd::arithmetic::mul::lemma_mul_strict_inequality(adv, n, dc);
    }
}

/// Reflection law for a head-on approach: a body moving horizontally
/// (velocity perpendicular to a vertical wall face) toward a single wall,
/// starting strictly before the wall's expanded boundary, within its span,
/// and with enough travel to reach it, comes back with exactly the negated
/// velocity after one reflection.
pub proof fn lemma_head_on_reflection(
    shapes: Seq<NamedShape>,
    r: int,
    px: int,
    py: int,
    dx: int,
    vx: int,
)
    requires
        shapes.len() == 1,
        shapes[0].rect.well_formed(),
        shapes[0].rect.bounded(),
        0 < r <= COORD_LIMIT,
        -COORD_LIMIT <= px <= COORD_LIMIT,
        -COORD_LIMIT <= py <= COORD_LIMIT,
        0 < dx <= COORD_LIMIT,
        px < shapes[0].rect.left - r,
        px + dx >= shapes[0].rect.left - r,
        shapes[0].rect.bottom - r <= py <= shapes[0].rect.top + r,
    ensures
        resolve_rec(shapes, r, px, py, dx, 0, vx, 0, 0) matches Some(out) ==> out.2 == -vx
            && out.3 == 0,
        resolve_rec(shapes, r, px, py, dx, 0, vx, 0, 0) is Some,
{
    let s = shapes[0].rect;
    let plane1 = s.right + r;
    let plane3 = s.left - r;
    let lo = s.bottom - r;
    let hi = s.top + r;
    let ray1 = ray_of(px, py, dx, 0);
    let n3 = plane3 - px;
    let n1 = plane1 - px;

    // The first sweep: the two horizontal segments are parallel to the
    // motion, and of the two vertical planes the near one wins.
    assert(crate::mesh::ray_delta_x(ray1) == dx && crate::mesh::ray_delta_y(ray1) == 0);
    assert(flat_rect(shapes, 0) == s && flat_rect(shapes, 1) == s && flat_rect(shapes, 2) == s
        && flat_rect(shapes, 3) == s);
    assert(!flat_crossed(shapes, ray1, r, 0));
    assert(!flat_crossed(shapes, ray1, r, 2));
    vstd::arithmetic::mul::lemma_mul_inequality(lo, py, dx);
    vstd::arithmetic::mul::lemma_mul_inequality(py, hi, dx);
    assert(flat_n(shapes, ray1, r, 3) == n3 && flat_d(ray1, 3) == dx);
    assert(flat_n(shapes, ray1, r, 1) == n1 && flat_d(ray1, 1) == dx);
    assert(flat_crossed(shapes, ray1, r, 3)) by {
        assert(n3 * 0 == 0);
        assert(crate::shape::seg_lo(s, r, 3) * flat_d(ray1, 3) == lo * dx);
    }
    assert(n3 < n1);
    if flat_crossed(shapes, ray1, r, 1) {
        vstd::arithmetic::mul::lemma_mul_strict_inequality(n3, n1, dx);
        assert(hit_before(n3, dx, n1, dx));
    }
    assert(sweep_best(shapes, ray1, r) == Some(3int)) by {
        reveal_with_fuel(crate::mesh::best_upto, 5);
    }

    // The reflection sub-step at the near plane.
    let adv = step_adv(n3);
    let s2 = bounce_step(shapes, r, px, py, dx, 0, vx, 0, 3);
    assert(seg_is_vertical(3) && sign_of(dx) == 1);
    assert(div_trunc(adv * 0, dx) == 0) by {
        assert(adv * 0 == 0);
        vstd::arithmetic::div_mod::lemma_basic_div(0, dx);
    }
    assert(adv * 1 == adv);
    assert(s2 == (px + adv, py, -(dx - adv), 0int, -vx, 0int));
    let px2 = px + adv;
    let dx2 = -(dx - adv);
    assert(0 <= adv < n3);
    assert(dx2 < 0);

    // The second sweep: the body moves away from the wall and crosses
    // nothing.
    let ray2 = ray_of(px2, py, dx2, 0);
    assert(crate::mesh::ray_delta_x(ray2) == dx2 && crate::mesh::ray_delta_y(ray2) == 0);
    assert(!flat_crossed(shapes, ray2, r, 0));
    assert(!flat_crossed(shapes, ray2, r, 2));
    assert(sign_of(dx2) == -1);
    assert(flat_n(shapes, ray2, r, 3) == (plane3 - px2) * -1);
    assert((plane3 - px2) * -1 == px2 - plane3) by (nonlinear_arith);
    assert(px2 - plane3 < 0);
    assert(!flat_crossed(shapes, ray2, r, 3));
    assert(flat_n(shapes, ray2, r, 1) == (plane1 - px2) * -1);
    assert((plane1 - px2) * -1 == px2 - plane1) by (nonlinear_arith);
    assert(px2 - plane1 < 0);
    assert(!flat_crossed(shapes, ray2, r, 1));
    assert(sweep_best(shapes, ray2, r) is None) by {
        reveal_with_fuel(crate::mesh::best_upto, 5);
    }

    // Unfold the resolver twice: one reflection, then a clear pass.
    assert(resolve_rec(shapes, r, px2, py, dx2, 0, -vx, 0, 1) == Some(
        (px2 + dx2, py, -vx, 0int),
    ));
    assert(resolve_rec(shapes, r, px, py, dx, 0, vx, 0, 0) == Some((px2 + dx2, py, -vx, 0int)));
}

} // verus!
